//! Mount records, the two line grammars, and the snapshot that gathers them.
use vstd::prelude::*;
use crate::error::{MountInfoError, ParseLineError};
use crate::fstype::FsType;
use crate::number::{decimal, all_digits, is_digit, parse_u32};
use crate::options::MountOptions;
use crate::text::{Delim, fields, lines, pieces, views, split_fields, split_lines, split_pieces, same_chars};

verus! {

/// One mount of a filesystem.
#[derive(Debug)]
pub struct MountPoint {
    /// The id of the mount, unique among the mounts of one snapshot; only the
    /// detailed format gives it.
    pub id: Option<u32>,
    /// The id of the parent mount; only the detailed format gives it.
    pub parent_id: Option<u32>,
    /// The directory of the mounted filesystem that appears at `path`; only
    /// the detailed format gives it.
    pub root: Option<String>,
    /// Where the filesystem comes from: a device, or a pseudo-device's name.
    pub what: String,
    /// The directory that the filesystem is mounted on.
    pub path: String,
    /// The filesystem type.
    pub fstype: FsType,
    /// The mount options.
    pub options: MountOptions,
}

pub open spec fn is_alnum(c: char) -> bool {
    'a' <= c <= 'z' || 'A' <= c <= 'Z' || '0' <= c <= '9'
}

/// A device number: `major:minor`, both in decimal digits.
pub open spec fn is_device_field(t: Seq<char>) -> bool {
    exists|p: int|
        0 <= p < t.len() && #[trigger] t[p] == ':' && all_digits(t.take(p)) && all_digits(
            t.skip(p + 1),
        )
}

/// The per-mount option list of the detailed format: letters, digits and commas.
pub open spec fn is_option_field(t: Seq<char>) -> bool {
    forall|k: int| 0 <= k < t.len() ==> is_alnum(#[trigger] t[k]) || t[k] == ','
}

/// An optional tag of the detailed format, such as `shared:46`: letters,
/// digits and colons.
pub open spec fn is_tag(t: Seq<char>) -> bool {
    forall|k: int| 0 <= k < t.len() ==> is_alnum(#[trigger] t[k]) || t[k] == ':'
}

/// The index of the first field from `i` on that is not a tag.
pub open spec fn tag_end(t: Seq<Seq<char>>, i: int) -> int
    decreases t.len() - i,
{
    if i < 0 || i >= t.len() || !is_tag(t[i]) {
        i
    } else {
        tag_end(t, i + 1)
    }
}

/// The index of the `-` field of a detailed line: the first field after the
/// option list that is not a tag.
pub open spec fn separator_index(t: Seq<Seq<char>>) -> int {
    tag_end(t, 6)
}

/// The fields of a detailed line. Each whitespace character ends a field, so
/// an empty field, such as an empty option list, keeps its place.
pub open spec fn detailed_fields(l: Seq<char>) -> Seq<Seq<char>> {
    pieces(l, Delim::Space)
}

/// The fields of a detailed line: id, parent id, device, root, mount point,
/// options, tags, `-`, filesystem type, source, and any super options.
pub open spec fn has_detailed_shape(t: Seq<Seq<char>>) -> bool {
    &&& t.len() >= 6
    &&& is_device_field(t[2])
    &&& is_option_field(t[5])
    &&& separator_index(t) + 2 < t.len()
    &&& t[separator_index(t)] == "-"@
}

/// Why the detailed line `l` is malformed, if it is.
pub open spec fn detailed_error(l: Seq<char>) -> Option<ParseLineError> {
    let t = detailed_fields(l);
    if !has_detailed_shape(t) {
        Some(ParseLineError::InvalidFormat)
    } else if decimal(t[0]) is Err {
        Some(ParseLineError::InvalidMountId(decimal(t[0])->Err_0))
    } else if decimal(t[1]) is Err {
        Some(ParseLineError::InvalidParentId(decimal(t[1])->Err_0))
    } else {
        None
    }
}

/// Whether the legacy line `l` is blank or has the four fields it needs.
pub open spec fn legacy_line_ok(l: Seq<char>) -> bool {
    fields(l).len() == 0 || fields(l).len() >= 4
}

/// The fields of the non-blank lines of `ls`, in order.
pub open spec fn legacy_rows(ls: Seq<Seq<char>>) -> Seq<Seq<Seq<char>>>
    decreases ls.len(),
{
    if ls.len() == 0 {
        Seq::empty()
    } else if fields(ls.last()).len() > 0 {
        legacy_rows(ls.drop_last()).push(fields(ls.last()))
    } else {
        legacy_rows(ls.drop_last())
    }
}

impl MountPoint {
    /// `self` is the record that the well-formed detailed line `l` describes.
    pub open spec fn is_detailed_record(&self, l: Seq<char>) -> bool {
        let t = detailed_fields(l);
        let j = separator_index(t);
        &&& self.id == Some(decimal(t[0])->Ok_0)
        &&& self.parent_id == Some(decimal(t[1])->Ok_0)
        &&& self.root is Some
        &&& self.root->Some_0@ == t[3]
        &&& self.path@ == t[4]
        &&& self.options.describes(t[5])
        &&& self.fstype.is_read_from(t[j + 1])
        &&& self.what@ == t[j + 2]
    }

    /// `self` is the record that a legacy line of the fields `t` describes.
    pub open spec fn is_legacy_record(&self, t: Seq<Seq<char>>) -> bool {
        &&& self.what@ == t[0]
        &&& self.path@ == t[1]
        &&& self.fstype.is_read_from(t[2])
        &&& self.options.describes(t[3])
        &&& self.id is None
        &&& self.parent_id is None
        &&& self.root is None
    }
}

fn is_device_token(t: &str) -> (r: bool)
    ensures
        r == is_device_field(t@),
{
    let n = t.unicode_len();
    let mut p: usize = 0;
    while p < n && '0' <= t.get_char(p) && t.get_char(p) <= '9'
        invariant
            n == t@.len(),
            p <= n,
            forall|k: int| 0 <= k < p ==> is_digit(#[trigger] t@[k]),
        decreases n - p,
    {
        p += 1;
    }
    if p == n || t.get_char(p) != ':' {
        assert(!is_device_field(t@)) by {
            if is_device_field(t@) {
                let q = choose|q: int|
                    0 <= q < t@.len() && #[trigger] t@[q] == ':' && all_digits(t@.take(q))
                        && all_digits(t@.skip(q + 1));
                if q > p {
                    assert(t@.take(q)[p as int] == t@[p as int]);
                } else if q < p {
                    assert(is_digit(t@[q]));
                }
            }
        }
        return false;
    }
    let mut r: usize = p + 1;
    while r < n
        invariant
            n == t@.len(),
            p < r <= n,
            t@[p as int] == ':',
            forall|k: int| 0 <= k < p ==> is_digit(#[trigger] t@[k]),
            forall|k: int| p < k < r ==> is_digit(#[trigger] t@[k]),
        decreases n - r,
    {
        let c = t.get_char(r);
        if !('0' <= c && c <= '9') {
            assert(!is_device_field(t@)) by {
                if is_device_field(t@) {
                    let q = choose|q: int|
                        0 <= q < t@.len() && #[trigger] t@[q] == ':' && all_digits(t@.take(q))
                            && all_digits(t@.skip(q + 1));
                    if q > p {
                        assert(t@.take(q)[p as int] == t@[p as int]);
                    } else if q < p {
                        assert(is_digit(t@[q]));
                    } else {
                        assert(t@.skip(q + 1)[r - p - 1] == t@[r as int]);
                    }
                }
            }
            return false;
        }
        r += 1;
    }
    assert(all_digits(t@.take(p as int)));
    assert(all_digits(t@.skip(p + 1)));
    assert(t@[p as int] == ':');
    true
}

fn is_alnum_char(c: char) -> (r: bool)
    ensures
        r == is_alnum(c),
{
    ('a' <= c && c <= 'z') || ('A' <= c && c <= 'Z') || ('0' <= c && c <= '9')
}

/// Whether every character of `t` is a letter, a digit or `extra`.
fn is_word_of(t: &str, extra: char) -> (r: bool)
    ensures
        r == forall|k: int| 0 <= k < t@.len() ==> is_alnum(#[trigger] t@[k]) || t@[k] == extra,
{
    let n = t.unicode_len();
    let mut i: usize = 0;
    while i < n
        invariant
            n == t@.len(),
            i <= n,
            forall|k: int| 0 <= k < i ==> is_alnum(#[trigger] t@[k]) || t@[k] == extra,
        decreases n - i,
    {
        let c = t.get_char(i);
        if !(is_alnum_char(c) || c == extra) {
            return false;
        }
        i += 1;
    }
    true
}

impl MountPoint {
    /// Parses one line of the detailed mount-info format:
    /// `<id> <parent id> <major>:<minor> <root> <mount point> <options>
    /// <tags...> - <fstype> <source> <super options...>`, fields separated by
    /// one whitespace character each; the tags, letters, digits and colons,
    /// may be absent.
    pub fn parse_proc_mountinfo_line(line: &str) -> (r: Result<MountPoint, ParseLineError>)
        ensures
            match r {
                Ok(mp) => detailed_error(line@) is None && mp.is_detailed_record(line@),
                Err(e) => detailed_error(line@) == Some(e),
            },
    {
        let toks = split_pieces(line, Delim::Space);
        let ghost t = detailed_fields(line@);
        let n = toks.len();
        assert(forall|i: int| 0 <= i < n ==> t[i] == (#[trigger] toks@[i])@);
        if n < 6 {
            return Err(ParseLineError::InvalidFormat);
        }
        if !is_device_token(toks[2].as_str()) || !is_word_of(toks[5].as_str(), ',') {
            return Err(ParseLineError::InvalidFormat);
        }
        let mut j: usize = 6;
        while j < n && is_word_of(toks[j].as_str(), ':')
            invariant
                n == toks@.len(),
                n == t.len(),
                6 <= j <= n,
                forall|i: int| 0 <= i < n ==> t[i] == (#[trigger] toks@[i])@,
                tag_end(t, 6) == tag_end(t, j as int),
            decreases n - j,
        {
            j += 1;
        }
        assert(separator_index(t) == j);
        if n - j <= 2 || !same_chars(toks[j].as_str(), "-") {
            return Err(ParseLineError::InvalidFormat);
        }
        let id = match parse_u32(toks[0].as_str()) {
            Ok(v) => v,
            Err(e) => {
                return Err(ParseLineError::InvalidMountId(e));
            },
        };
        let parent_id = match parse_u32(toks[1].as_str()) {
            Ok(v) => v,
            Err(e) => {
                return Err(ParseLineError::InvalidParentId(e));
            },
        };
        Ok(
            MountPoint {
                id: Some(id),
                parent_id: Some(parent_id),
                root: Some(toks[3].clone()),
                path: toks[4].clone(),
                options: MountOptions::new(toks[5].as_str()),
                fstype: FsType::from_name(toks[j + 1].as_str()),
                what: toks[j + 2].clone(),
            },
        )
    }

    /// Parses one line of the legacy mount table:
    /// `<source> <mount point> <fstype> <options> ...`, fields separated by
    /// whitespace. A blank line gives no record; a line of one to three
    /// fields is malformed.
    pub fn parse_mtab_line(line: &str) -> (r: Result<Option<MountPoint>, ParseLineError>)
        ensures
            match r {
                Ok(None) => fields(line@).len() == 0,
                Ok(Some(mp)) => fields(line@).len() >= 4 && mp.is_legacy_record(fields(line@)),
                Err(e) => !legacy_line_ok(line@) && e == ParseLineError::InvalidFormat,
            },
    {
        let toks = split_fields(line);
        let ghost t = fields(line@);
        assert(forall|i: int| 0 <= i < toks.len() ==> t[i] == (#[trigger] toks@[i])@);
        if toks.len() == 0 {
            return Ok(None);
        }
        if toks.len() < 4 {
            return Err(ParseLineError::InvalidFormat);
        }
        Ok(
            Some(
                MountPoint {
                    what: toks[0].clone(),
                    path: toks[1].clone(),
                    fstype: FsType::from_name(toks[2].as_str()),
                    options: MountOptions::new(toks[3].as_str()),
                    id: None,
                    parent_id: None,
                    root: None,
                },
            ),
        )
    }
}

/// A snapshot of the mount table, in the order of its lines.
#[derive(Debug)]
pub struct MountInfo {
    /// The mounts visible to the process when the snapshot was taken.
    pub mounting_points: Vec<MountPoint>,
}

/// Line `k` of `ls` is the first malformed detailed line.
pub open spec fn first_bad_detailed(ls: Seq<Seq<char>>, k: int) -> bool {
    &&& 0 <= k < ls.len()
    &&& detailed_error(ls[k]) is Some
    &&& forall|j: int| 0 <= j < k ==> detailed_error(#[trigger] ls[j]) is None
}

/// Line `k` of `ls` is the first malformed legacy line.
pub open spec fn first_bad_legacy(ls: Seq<Seq<char>>, k: int) -> bool {
    &&& 0 <= k < ls.len()
    &&& !legacy_line_ok(ls[k])
    &&& forall|j: int| 0 <= j < k ==> legacy_line_ok(#[trigger] ls[j])
}

/// What parsing the detailed text `text` gives: one record per line when
/// every line is well-formed, else the error of the first malformed line.
pub open spec fn detailed_outcome(text: Seq<char>, r: Result<Vec<MountPoint>, MountInfoError>) -> bool {
    let ls = lines(text);
    match r {
        Ok(v) => {
            &&& v@.len() == ls.len()
            &&& forall|i: int|
                0 <= i < ls.len() ==> detailed_error(#[trigger] ls[i]) is None
                    && v@[i].is_detailed_record(ls[i])
        },
        Err(e) => exists|k: int|
            #[trigger] first_bad_detailed(ls, k) && e == (MountInfoError::ParseError {
                line: (k + 1) as usize,
                source: detailed_error(ls[k])->Some_0,
            }),
    }
}

/// What parsing the legacy text `text` gives: one record per non-blank line
/// when none is short, else an error naming the first short line.
pub open spec fn legacy_outcome(text: Seq<char>, r: Result<Vec<MountPoint>, MountInfoError>) -> bool {
    let ls = lines(text);
    let rows = legacy_rows(ls);
    match r {
        Ok(v) => {
            &&& forall|i: int| 0 <= i < ls.len() ==> legacy_line_ok(#[trigger] ls[i])
            &&& v@.len() == rows.len()
            &&& forall|m: int| 0 <= m < rows.len() ==> (#[trigger] v@[m]).is_legacy_record(rows[m])
        },
        Err(e) => exists|k: int|
            #[trigger] first_bad_legacy(ls, k) && e == (MountInfoError::ParseError {
                line: (k + 1) as usize,
                source: ParseLineError::InvalidFormat,
            }),
    }
}

/// The records of a snapshot, or the error that prevented it.
pub open spec fn points_of(r: Result<MountInfo, MountInfoError>) -> Result<Vec<MountPoint>, MountInfoError> {
    match r {
        Ok(m) => Ok(m.mounting_points),
        Err(e) => Err(e),
    }
}

impl MountInfo {
    /// Some mount of the snapshot is on `path`.
    pub open spec fn spec_is_mounted(&self, path: Seq<char>) -> bool {
        exists|i: int|
            0 <= i < self.mounting_points@.len() && (#[trigger] self.mounting_points@[i]).path@
                == path
    }

    /// Some mount of the snapshot is of type `fstype` on `path`.
    pub open spec fn spec_contains(&self, path: Seq<char>, fstype: FsType) -> bool {
        exists|i: int|
            0 <= i < self.mounting_points@.len() && (#[trigger] self.mounting_points@[i]).path@
                == path && self.mounting_points@[i].fstype.same_as(&fstype)
    }

    /// Whether a filesystem of type `fstype` is mounted on `mounting_point`.
    pub fn contains(&self, mounting_point: &str, fstype: FsType) -> (r: bool)
        ensures
            r == self.spec_contains(mounting_point@, fstype),
    {
        let n = self.mounting_points.len();
        let mut i: usize = 0;
        while i < n
            invariant
                n == self.mounting_points@.len(),
                i <= n,
                forall|k: int|
                    0 <= k < i ==> !((#[trigger] self.mounting_points@[k]).path@ == mounting_point@
                        && self.mounting_points@[k].fstype.same_as(&fstype)),
            decreases n - i,
        {
            let mp = &self.mounting_points[i];
            if same_chars(mp.path.as_str(), mounting_point) && mp.fstype.eq(&fstype) {
                return true;
            }
            i += 1;
        }
        false
    }

    /// Whether some filesystem is mounted on `path`.
    pub fn is_mounted(&self, path: &str) -> (r: bool)
        ensures
            r == self.spec_is_mounted(path@),
    {
        let n = self.mounting_points.len();
        let mut i: usize = 0;
        while i < n
            invariant
                n == self.mounting_points@.len(),
                i <= n,
                forall|k: int|
                    0 <= k < i ==> (#[trigger] self.mounting_points@[k]).path@ != path@,
            decreases n - i,
        {
            if same_chars(self.mounting_points[i].path.as_str(), path) {
                return true;
            }
            i += 1;
        }
        false
    }

    /// Parses the whole text of a detailed mount-info table. Every line must
    /// be well-formed: the first malformed one fails the whole snapshot, and
    /// its error names it, counting from 1.
    pub fn parse_proc_mountinfo(text: &str) -> (r: Result<Vec<MountPoint>, MountInfoError>)
        ensures
            detailed_outcome(text@, r),
    {
        let ls = split_lines(text);
        let ghost l = lines(text@);
        let n = ls.len();
        assert(forall|i: int| 0 <= i < n ==> l[i] == (#[trigger] ls@[i])@);
        let mut out: Vec<MountPoint> = Vec::new();
        let mut i: usize = 0;
        while i < n
            invariant
                n == ls@.len(),
                n == l.len(),
                l == lines(text@),
                i <= n,
                forall|k: int| 0 <= k < n ==> l[k] == (#[trigger] ls@[k])@,
                out@.len() == i,
                forall|k: int|
                    0 <= k < i ==> detailed_error(#[trigger] l[k]) is None
                        && out@[k].is_detailed_record(l[k]),
            decreases n - i,
        {
            match MountPoint::parse_proc_mountinfo_line(ls[i].as_str()) {
                Ok(mp) => {
                    out.push(mp);
                },
                Err(e) => {
                    let err = MountInfoError::ParseError { line: i + 1, source: e };
                    assert(first_bad_detailed(l, i as int) && err == (MountInfoError::ParseError {
                        line: (i as int + 1) as usize,
                        source: detailed_error(l[i as int])->Some_0,
                    }));
                    return Err(err);
                },
            }
            i += 1;
        }
        Ok(out)
    }

    /// Parses the whole text of a legacy mount table. Blank lines are
    /// skipped; a line of one to three fields fails the whole snapshot, and
    /// the error names it, counting from 1.
    pub fn parse_mtab(text: &str) -> (r: Result<Vec<MountPoint>, MountInfoError>)
        ensures
            legacy_outcome(text@, r),
    {
        let ls = split_lines(text);
        let ghost l = lines(text@);
        let n = ls.len();
        assert(forall|i: int| 0 <= i < n ==> l[i] == (#[trigger] ls@[i])@);
        let mut out: Vec<MountPoint> = Vec::new();
        let mut i: usize = 0;
        assert(l.take(0) =~= Seq::<Seq<char>>::empty());
        while i < n
            invariant
                n == ls@.len(),
                n == l.len(),
                l == lines(text@),
                i <= n,
                forall|k: int| 0 <= k < n ==> l[k] == (#[trigger] ls@[k])@,
                forall|k: int| 0 <= k < i ==> legacy_line_ok(#[trigger] l[k]),
                out@.len() == legacy_rows(l.take(i as int)).len(),
                forall|m: int|
                    0 <= m < out@.len() ==> (#[trigger] out@[m]).is_legacy_record(
                        legacy_rows(l.take(i as int))[m],
                    ),
            decreases n - i,
        {
            assert(l.take(i + 1).drop_last() =~= l.take(i as int));
            assert(l.take(i + 1).last() == l[i as int]);
            match MountPoint::parse_mtab_line(ls[i].as_str()) {
                Ok(Some(mp)) => {
                    out.push(mp);
                },
                Ok(None) => {},
                Err(e) => {
                    let err = MountInfoError::ParseError { line: i + 1, source: e };
                    assert(first_bad_legacy(l, i as int) && err == (MountInfoError::ParseError {
                        line: (i as int + 1) as usize,
                        source: ParseLineError::InvalidFormat,
                    }));
                    return Err(err);
                },
            }
            i += 1;
        }
        assert(l.take(n as int) =~= l);
        Ok(out)
    }

    /// Makes a snapshot from whichever table is there: the detailed one when
    /// it exists, whether or not it parses, else the legacy one, else none.
    pub fn from_sources(mountinfo: Option<&str>, mtab: Option<&str>) -> (r: Result<
        MountInfo,
        MountInfoError,
    >)
        ensures
            match (mountinfo, mtab) {
                (Some(t), _) => detailed_outcome(t@, points_of(r)),
                (None, Some(t)) => legacy_outcome(t@, points_of(r)),
                (None, None) => r matches Err(MountInfoError::NoMountInfoFile),
            },
    {
        match mountinfo {
            Some(t) => match MountInfo::parse_proc_mountinfo(t) {
                Ok(v) => Ok(MountInfo { mounting_points: v }),
                Err(e) => Err(e),
            },
            None => match mtab {
                Some(t) => match MountInfo::parse_mtab(t) {
                    Ok(v) => Ok(MountInfo { mounting_points: v }),
                    Err(e) => Err(e),
                },
                None => Err(MountInfoError::NoMountInfoFile),
            },
        }
    }
}

/// Blank lines of a legacy table make no record: it has as many records as
/// non-blank lines.
pub proof fn lemma_one_row_per_nonblank_line(ls: Seq<Seq<char>>)
    ensures
        legacy_rows(ls).len() == ls.filter(|l: Seq<char>| fields(l).len() > 0).len(),
    decreases ls.len(),
{
    let nonblank = |l: Seq<char>| fields(l).len() > 0;
    if ls.len() > 0 {
        lemma_one_row_per_nonblank_line(ls.drop_last());
        assert(ls =~= ls.drop_last().push(ls.last()));
        ls.drop_last().lemma_filter_push(ls.last(), nonblank);
    } else {
        assert(ls.filter(nonblank) =~= Seq::<Seq<char>>::empty());
    }
}

} // verus!

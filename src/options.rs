//! Decoding of comma-separated mount option lists.
use vstd::prelude::*;
use crate::text::{Delim, pieces, views, split_pieces, same_chars};

verus! {

/// Whether a filesystem is mounted read-only or read-write.
#[derive(Clone, Copy, Debug, PartialEq, Eq, Structural)]
pub enum ReadWrite {
    ReadOnly,
    ReadWrite,
}

/// The options of a mount: its access flag and the options kept as text.
#[derive(Debug)]
pub struct MountOptions {
    /// Whether the filesystem was mounted read-only or read-write.
    pub read_write: ReadWrite,
    /// Every other option, in the order given, repeats included.
    pub others: Vec<String>,
}

/// Whether an option sets the access flag.
pub open spec fn is_access_option(t: Seq<char>) -> bool {
    t == "ro"@ || t == "rw"@
}

/// The access flag that the options give: the last `ro` or `rw` wins, and
/// without either the mount is read-only.
pub open spec fn final_access(opts: Seq<Seq<char>>) -> ReadWrite
    decreases opts.len(),
{
    if opts.len() == 0 {
        ReadWrite::ReadOnly
    } else if opts.last() == "ro"@ {
        ReadWrite::ReadOnly
    } else if opts.last() == "rw"@ {
        ReadWrite::ReadWrite
    } else {
        final_access(opts.drop_last())
    }
}

/// The options other than `ro` and `rw`, in order.
pub open spec fn other_options(opts: Seq<Seq<char>>) -> Seq<Seq<char>>
    decreases opts.len(),
{
    if opts.len() == 0 {
        Seq::empty()
    } else if is_access_option(opts.last()) {
        other_options(opts.drop_last())
    } else {
        other_options(opts.drop_last()).push(opts.last())
    }
}

/// Later options override earlier ones: after the options `a` and then `b`,
/// the access flag is the one that `b` sets, if it holds `ro` or `rw`, and
/// the one that `a` gives otherwise. The other options of both are kept, `a`'s
/// first.
pub proof fn lemma_later_access_wins(a: Seq<Seq<char>>, b: Seq<Seq<char>>)
    ensures
        final_access(a + b) == if exists|k: int| 0 <= k < b.len() && is_access_option(#[trigger] b[k]) {
            final_access(b)
        } else {
            final_access(a)
        },
        other_options(a + b) == other_options(a) + other_options(b),
    decreases b.len(),
{
    if b.len() == 0 {
        assert(a + b =~= a);
        assert(other_options(a) + other_options(b) =~= other_options(a));
    } else {
        let c = b.drop_last();
        lemma_later_access_wins(a, c);
        assert((a + b).drop_last() =~= a + c);
        assert((a + b).last() == b.last());
        assert(other_options(a) + other_options(c).push(b.last()) =~= (other_options(a)
            + other_options(c)).push(b.last()));
        if !is_access_option(b.last()) {
            if exists|k: int| 0 <= k < b.len() && is_access_option(#[trigger] b[k]) {
                let k = choose|k: int| 0 <= k < b.len() && is_access_option(#[trigger] b[k]);
                assert(c[k] == b[k]);
            }
            if exists|k: int| 0 <= k < c.len() && is_access_option(#[trigger] c[k]) {
                let k = choose|k: int| 0 <= k < c.len() && is_access_option(#[trigger] c[k]);
                assert(b[k] == c[k]);
            }
        } else {
            assert(is_access_option(b[b.len() - 1]));
        }
    }
}

/// The options of a comma-separated list, empty ones included.
pub open spec fn option_list(s: Seq<char>) -> Seq<Seq<char>> {
    pieces(s, Delim::Char(','))
}

impl MountOptions {
    /// The options decoded from the list `s`.
    pub open spec fn describes(&self, s: Seq<char>) -> bool {
        &&& self.read_write == final_access(option_list(s))
        &&& views(self.others@) == other_options(option_list(s))
    }

    /// Decodes a comma-separated option list. `ro` and `rw` set the access
    /// flag, the later one winning; every other option, empty ones included,
    /// is kept in `others`.
    pub fn new(options: &str) -> (r: Self)
        ensures
            r.describes(options@),
    {
        let segs = split_pieces(options, Delim::Char(','));
        let ghost opts = views(segs@);
        let mut read_write = ReadWrite::ReadOnly;
        let mut others: Vec<String> = Vec::new();
        let mut k: usize = 0;
        assert(opts.take(0) =~= Seq::<Seq<char>>::empty());
        assert(views(others@) =~= Seq::<Seq<char>>::empty());
        while k < segs.len()
            invariant
                opts == views(segs@),
                k <= segs.len(),
                read_write == final_access(opts.take(k as int)),
                views(others@) == other_options(opts.take(k as int)),
            decreases segs.len() - k,
        {
            assert(opts.take(k + 1).drop_last() =~= opts.take(k as int));
            assert(opts.take(k + 1).last() == segs@[k as int]@);
            let seg = segs[k].as_str();
            if same_chars(seg, "ro") {
                read_write = ReadWrite::ReadOnly;
            } else if same_chars(seg, "rw") {
                read_write = ReadWrite::ReadWrite;
            } else {
                let o = segs[k].clone();
                assert(views(others@.push(o)) =~= views(others@).push(o@));
                others.push(o);
            }
            k += 1;
        }
        assert(opts.take(segs.len() as int) =~= opts);
        MountOptions { read_write, others }
    }
}

} // verus!

//! Classification of filesystem type names.
use vstd::prelude::*;
use crate::text::same_chars;

verus! {

/// A filesystem type: one of a few well-known kinds, or any other name.
#[derive(Debug)]
pub enum FsType {
    /// procfs, the kernel's process table; usually at /proc.
    Proc,
    /// overlayfs, several filesystems stacked into one directory tree.
    Overlay,
    /// tmpfs, a filesystem held in volatile memory.
    Tmpfs,
    /// sysfs, the kernel's device tree.
    Sysfs,
    /// btrfs.
    Btrfs,
    /// ext2.
    Ext2,
    /// ext3.
    Ext3,
    /// ext4.
    Ext4,
    /// devtmpfs.
    Devtmpfs,
    /// Any other filesystem, by its name.
    Other(String),
}

/// The names of the well-known kinds.
pub open spec fn is_known_name(s: Seq<char>) -> bool {
    ||| s == "proc"@
    ||| s == "overlay"@
    ||| s == "tmpfs"@
    ||| s == "sysfs"@
    ||| s == "btrfs"@
    ||| s == "ext2"@
    ||| s == "ext3"@
    ||| s == "ext4"@
    ||| s == "devtmpfs"@
}

impl FsType {
    /// The name that the type is written as.
    pub open spec fn spec_name(&self) -> Seq<char> {
        match self {
            FsType::Proc => "proc"@,
            FsType::Overlay => "overlay"@,
            FsType::Tmpfs => "tmpfs"@,
            FsType::Sysfs => "sysfs"@,
            FsType::Btrfs => "btrfs"@,
            FsType::Ext2 => "ext2"@,
            FsType::Ext3 => "ext3"@,
            FsType::Ext4 => "ext4"@,
            FsType::Devtmpfs => "devtmpfs"@,
            FsType::Other(s) => s@,
        }
    }

    /// A value that reading its own name gives back: `Other` never holds a
    /// well-known name.
    pub open spec fn is_canonical(&self) -> bool {
        self is Other ==> !is_known_name(self.spec_name())
    }

    /// The value that the name `s` reads as.
    pub open spec fn is_read_from(&self, s: Seq<char>) -> bool {
        self.spec_name() == s && self.is_canonical()
    }

    /// Two values of the same kind, and of the same name.
    pub open spec fn same_as(&self, other: &FsType) -> bool {
        &&& (self is Other) == (other is Other)
        &&& self.spec_name() == other.spec_name()
    }

    /// Classifies a filesystem type name; names outside the well-known set,
    /// compared case-sensitively, become `Other`.
    pub fn from_name(s: &str) -> (r: FsType)
        ensures
            r.is_read_from(s@),
            r is Other <==> !is_known_name(s@),
    {
        if same_chars(s, "proc") {
            FsType::Proc
        } else if same_chars(s, "tmpfs") {
            FsType::Tmpfs
        } else if same_chars(s, "overlay") {
            FsType::Overlay
        } else if same_chars(s, "sysfs") {
            FsType::Sysfs
        } else if same_chars(s, "btrfs") {
            FsType::Btrfs
        } else if same_chars(s, "ext2") {
            FsType::Ext2
        } else if same_chars(s, "ext3") {
            FsType::Ext3
        } else if same_chars(s, "ext4") {
            FsType::Ext4
        } else if same_chars(s, "devtmpfs") {
            FsType::Devtmpfs
        } else {
            FsType::Other(s.to_owned())
        }
    }

    /// The name that the type is written as.
    pub fn as_str(&self) -> (r: &str)
        ensures
            r@ == self.spec_name(),
    {
        match self {
            FsType::Proc => "proc",
            FsType::Overlay => "overlay",
            FsType::Tmpfs => "tmpfs",
            FsType::Sysfs => "sysfs",
            FsType::Btrfs => "btrfs",
            FsType::Ext2 => "ext2",
            FsType::Ext3 => "ext3",
            FsType::Ext4 => "ext4",
            FsType::Devtmpfs => "devtmpfs",
            FsType::Other(s) => s.as_str(),
        }
    }
}

impl PartialEq for FsType {
    fn eq(&self, other: &FsType) -> (r: bool) {
        let both_other = match (self, other) {
            (FsType::Other(_), FsType::Other(_)) => true,
            (FsType::Other(_), _) => false,
            (_, FsType::Other(_)) => false,
            _ => true,
        };
        both_other && same_chars(self.as_str(), other.as_str())
    }
}

impl std::str::FromStr for FsType {
    type Err = ();

    /// Classifies a filesystem type name, as [`FsType::from_name`] does;
    /// never fails.
    fn from_str(s: &str) -> (r: Result<FsType, ()>)
        ensures
            r matches Ok(v) && v.is_read_from(s@),
    {
        Ok(FsType::from_name(s))
    }
}

impl vstd::std_specs::cmp::PartialEqSpecImpl for FsType {
    open spec fn obeys_eq_spec() -> bool {
        true
    }

    open spec fn eq_spec(&self, other: &FsType) -> bool {
        self.same_as(other)
    }
}

/// Names and kinds agree both ways: among canonical values the name decides
/// the value. So reading the name of a canonical value gives that value back,
/// and writing out what a name reads as gives that name back.
pub proof fn lemma_name_decides_kind(a: FsType, b: FsType)
    requires
        a.is_canonical(),
        b.is_canonical(),
        a.spec_name() == b.spec_name(),
    ensures
        a.same_as(&b),
        !(a is Other) ==> a == b,
{
    reveal_strlit("proc");
    reveal_strlit("overlay");
    reveal_strlit("tmpfs");
    reveal_strlit("sysfs");
    reveal_strlit("btrfs");
    reveal_strlit("ext2");
    reveal_strlit("ext3");
    reveal_strlit("ext4");
    reveal_strlit("devtmpfs");
    if !(a is Other) {
        assert(is_known_name(a.spec_name()));
    }
    if !(b is Other) {
        assert(is_known_name(b.spec_name()));
    }
    if !(a is Other) && !(b is Other) {
        let n = a.spec_name();
        assert(n.len() == b.spec_name().len());
        if n.len() == 4 {
            assert(n[3] == b.spec_name()[3]);
        }
        if n.len() == 5 {
            assert(n[0] == b.spec_name()[0]);
        }
    }
}

} // verus!

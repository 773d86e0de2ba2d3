use std::str::FromStr;

use mountinfo::{
    FsType, MountInfo, MountInfoError, MountOptions, MountPoint, NumberError, ParseLineError,
    ReadWrite,
};

const TMP_LINE: &str =
    "tmpfs /tmp tmpfs rw,seclabel,nosuid,nodev,size=8026512k,nr_inodes=1048576,inode64 0 0";

const EFI_LINE: &str = "48 46 253:15 / /boot/efi rw,relatime shared:46 - vfat /dev/vda15 rw,fmask=0077,dmask=0077,codepage=437,iocharset=iso8859-1,shortname=mixed,errors=remount-ro";

#[test]
fn test_load_mount_points() {
    let munt_points = MountInfo::parse_mtab(TMP_LINE).unwrap();
    assert_eq!(munt_points.len(), 1);
    assert_eq!(munt_points[0].what, "tmpfs".to_owned());
    assert_eq!(munt_points[0].path, "/tmp".to_string());
    assert_eq!(munt_points[0].fstype, FsType::Tmpfs);
}

#[test]
fn test_contains() {
    let mtab = MountInfo {
        mounting_points: MountInfo::parse_mtab(TMP_LINE).unwrap(),
    };
    assert_eq!(mtab.contains("/tmp", FsType::Tmpfs), true);
}

#[test]
fn test_is_mounted() {
    let mtab = MountInfo {
        mounting_points: MountInfo::parse_mtab(TMP_LINE).unwrap(),
    };
    assert_eq!(mtab.is_mounted("/tmp"), true);
}

#[test]
fn test_mount_options() {
    let options =
        MountOptions::new("rw,seclabel,nosuid,nodev,size=8026512k,nr_inodes=1048576,inode64");
    assert_eq!(options.read_write, ReadWrite::ReadWrite);
    assert_ne!(options.others.len(), 0);
    let more_options =
        MountOptions::new("ro,seclabel,nosuid,nodev,size=8026512k,nr_inodes=1048576,inode64");
    assert_eq!(more_options.read_write, ReadWrite::ReadOnly);
    assert_ne!(more_options.others.len(), 0);
}

#[test]
fn parse_proc_mountinfo_line() {
    let line: String = EFI_LINE.into();
    let mount_point = MountPoint::parse_proc_mountinfo_line(&line).unwrap();
    assert_eq!(Some(48), mount_point.id);
    assert_eq!(Some(46), mount_point.parent_id);
    assert_eq!(Some("/".to_string()), mount_point.root);
    assert_eq!(&"/boot/efi".to_string(), &mount_point.path);
    assert_eq!("/dev/vda15", &mount_point.what);
    assert_eq!(FsType::Other("vfat".into()), mount_point.fstype);
    assert_eq!(ReadWrite::ReadWrite, mount_point.options.read_write);
}

#[test]
fn fstype_names_round_trip() {
    let names = [
        "proc", "overlay", "tmpfs", "sysfs", "btrfs", "ext2", "ext3", "ext4", "devtmpfs",
    ];
    for name in names {
        let fs = FsType::from_name(name);
        assert!(!matches!(fs, FsType::Other(_)), "{name}");
        assert_eq!(fs.as_str(), name);
        assert_eq!(FsType::from_name(fs.as_str()), fs);
    }
    assert_eq!(FsType::from_name("ext4"), FsType::Ext4);
    assert_eq!(FsType::from_name("devtmpfs"), FsType::Devtmpfs);
}

#[test]
fn fstype_unknown_name_is_kept() {
    let fs = FsType::from_name("vfat");
    assert_eq!(fs, FsType::Other("vfat".to_string()));
    assert_eq!(fs.as_str(), "vfat");
    assert_eq!(FsType::from_name("Tmpfs"), FsType::Other("Tmpfs".to_string()));
    assert_ne!(FsType::Other("tmp".to_string()), FsType::Tmpfs);
    assert_ne!(FsType::Ext3, FsType::Ext4);
}

#[test]
fn options_last_access_flag_wins() {
    assert_eq!(MountOptions::new("rw,ro").read_write, ReadWrite::ReadOnly);
    assert_eq!(MountOptions::new("ro,rw").read_write, ReadWrite::ReadWrite);
    let o = MountOptions::new("ro,foo,rw,bar");
    assert_eq!(o.read_write, ReadWrite::ReadWrite);
    assert_eq!(o.others, vec!["foo".to_string(), "bar".to_string()]);
}

#[test]
fn options_default_and_repeats() {
    let o = MountOptions::new("");
    assert_eq!(o.read_write, ReadWrite::ReadOnly);
    assert_eq!(o.others, vec!["".to_string()]);
    let o = MountOptions::new("noexec,noexec,,rw");
    assert_eq!(o.read_write, ReadWrite::ReadWrite);
    assert_eq!(
        o.others,
        vec!["noexec".to_string(), "noexec".to_string(), "".to_string()]
    );
}

#[test]
fn legacy_line_record() {
    let v = MountInfo::parse_mtab("tmpfs /tmp tmpfs rw,seclabel,nosuid 0 0").unwrap();
    assert_eq!(v.len(), 1);
    let mp = &v[0];
    assert_eq!(mp.what, "tmpfs");
    assert_eq!(mp.path, "/tmp");
    assert_eq!(mp.fstype, FsType::Tmpfs);
    assert_eq!(mp.options.read_write, ReadWrite::ReadWrite);
    assert_eq!(mp.options.others, vec!["seclabel".to_string(), "nosuid".to_string()]);
    assert_eq!(mp.id, None);
    assert_eq!(mp.parent_id, None);
    assert_eq!(mp.root, None);
}

#[test]
fn detailed_line_record() {
    let line = "48 46 253:15 / /boot/efi rw,relatime shared:46 - vfat /dev/vda15 rw,fmask=0077";
    let mp = MountPoint::parse_proc_mountinfo_line(line).unwrap();
    assert_eq!(mp.id, Some(48));
    assert_eq!(mp.parent_id, Some(46));
    assert_eq!(mp.root, Some("/".to_string()));
    assert_eq!(mp.path, "/boot/efi");
    assert_eq!(mp.what, "/dev/vda15");
    assert_eq!(mp.fstype, FsType::Other("vfat".to_string()));
    assert_eq!(mp.options.read_write, ReadWrite::ReadWrite);
    assert_eq!(mp.options.others, vec!["relatime".to_string()]);
}

#[test]
fn detailed_line_without_tags() {
    let line = "22 1 0:21 / /proc rw,nosuid,nodev,noexec,relatime - proc proc rw";
    let mp = MountPoint::parse_proc_mountinfo_line(line).unwrap();
    assert_eq!(mp.id, Some(22));
    assert_eq!(mp.parent_id, Some(1));
    assert_eq!(mp.fstype, FsType::Proc);
    assert_eq!(mp.what, "proc");
}

#[test]
fn detailed_line_malformed() {
    let no_separator = "48 46 253:15 / /boot/efi rw,relatime shared:46 vfat /dev/vda15 rw";
    assert!(matches!(
        MountPoint::parse_proc_mountinfo_line(no_separator),
        Err(ParseLineError::InvalidFormat)
    ));
    let bad_device = "48 46 253-15 / /boot/efi rw - vfat /dev/vda15 rw";
    assert!(matches!(
        MountPoint::parse_proc_mountinfo_line(bad_device),
        Err(ParseLineError::InvalidFormat)
    ));
    let missing_source = "48 46 253:15 / /boot/efi rw - vfat";
    assert!(matches!(
        MountPoint::parse_proc_mountinfo_line(missing_source),
        Err(ParseLineError::InvalidFormat)
    ));
    assert!(matches!(
        MountPoint::parse_proc_mountinfo_line(""),
        Err(ParseLineError::InvalidFormat)
    ));
}

#[test]
fn detailed_line_bad_ids() {
    let bad_id = "x8 46 253:15 / /boot/efi rw - vfat /dev/vda15 rw";
    assert!(matches!(
        MountPoint::parse_proc_mountinfo_line(bad_id),
        Err(ParseLineError::InvalidMountId(NumberError::InvalidDigit))
    ));
    let big_id = "4294967296 46 253:15 / /boot/efi rw - vfat /dev/vda15 rw";
    assert!(matches!(
        MountPoint::parse_proc_mountinfo_line(big_id),
        Err(ParseLineError::InvalidMountId(NumberError::PosOverflow))
    ));
    let max_id = "4294967295 46 253:15 / /boot/efi rw - vfat /dev/vda15 rw";
    assert_eq!(
        MountPoint::parse_proc_mountinfo_line(max_id).unwrap().id,
        Some(4294967295)
    );
    let bad_parent = "48 4a6 253:15 / /boot/efi rw - vfat /dev/vda15 rw";
    assert!(matches!(
        MountPoint::parse_proc_mountinfo_line(bad_parent),
        Err(ParseLineError::InvalidParentId(NumberError::InvalidDigit))
    ));
}

#[test]
fn model_queries() {
    let info = MountInfo::from_sources(None, Some("tmpfs /tmp tmpfs rw,seclabel,nosuid 0 0"))
        .unwrap();
    assert!(info.contains("/tmp", FsType::Tmpfs));
    assert!(!info.contains("/tmp", FsType::Ext4));
    assert!(info.is_mounted("/tmp"));
    assert!(!info.is_mounted("/nonexistent"));
}

#[test]
fn detailed_snapshot_fails_whole() {
    let text = "22 1 0:21 / /proc rw,nosuid - proc proc rw\n\
                this line is wrong\n\
                48 46 253:15 / /boot/efi rw - vfat /dev/vda15 rw\n";
    match MountInfo::parse_proc_mountinfo(text) {
        Err(MountInfoError::ParseError { line, source }) => {
            assert_eq!(line, 2);
            assert_eq!(source, ParseLineError::InvalidFormat);
        }
        other => panic!("unexpected {other:?}"),
    }
    let info = MountInfo::from_sources(Some(text), Some(TMP_LINE));
    assert!(matches!(info, Err(MountInfoError::ParseError { line: 2, .. })));
}

#[test]
fn detailed_snapshot_all_lines() {
    let text = "22 1 0:21 / /proc rw,nosuid - proc proc rw\n\
                48 46 253:15 / /boot/efi rw - vfat /dev/vda15 rw\n";
    let v = MountInfo::parse_proc_mountinfo(text).unwrap();
    assert_eq!(v.len(), 2);
    assert_eq!(v[0].path, "/proc");
    assert_eq!(v[1].path, "/boot/efi");
}

#[test]
fn legacy_blank_lines_skipped() {
    let text = "\nproc /proc proc rw 0 0\n\n   \t\ntmpfs /tmp tmpfs ro 0 0\n\n";
    let v = MountInfo::parse_mtab(text).unwrap();
    assert_eq!(v.len(), 2);
    assert_eq!(v[0].fstype, FsType::Proc);
    assert_eq!(v[1].path, "/tmp");
    assert_eq!(v[1].options.read_write, ReadWrite::ReadOnly);
    assert_eq!(MountInfo::parse_mtab("").unwrap().len(), 0);
}

#[test]
fn legacy_short_line_rejected() {
    let text = "proc /proc proc rw 0 0\n/dev/sda1 /boot\n";
    assert!(matches!(
        MountInfo::parse_mtab(text),
        Err(MountInfoError::ParseError { line: 2, source: ParseLineError::InvalidFormat })
    ));
}

#[test]
fn sources_fallback_order() {
    assert!(matches!(
        MountInfo::from_sources(None, None),
        Err(MountInfoError::NoMountInfoFile)
    ));
    let detailed = "22 1 0:21 / /proc rw - proc proc rw";
    let info = MountInfo::from_sources(Some(detailed), Some(TMP_LINE)).unwrap();
    assert_eq!(info.mounting_points.len(), 1);
    assert_eq!(info.mounting_points[0].id, Some(22));
    let info = MountInfo::from_sources(None, Some(TMP_LINE)).unwrap();
    assert_eq!(info.mounting_points[0].id, None);
}

#[test]
fn detailed_line_empty_options_field() {
    let mp = MountPoint::parse_proc_mountinfo_line("1 2 3:4 a b  x:y - c d").unwrap();
    assert_eq!(mp.id, Some(1));
    assert_eq!(mp.parent_id, Some(2));
    assert_eq!(mp.root, Some("a".to_string()));
    assert_eq!(mp.path, "b");
    assert_eq!(mp.options.read_write, ReadWrite::ReadOnly);
    assert_eq!(mp.options.others, vec!["".to_string()]);
    assert_eq!(mp.fstype, FsType::Other("c".to_string()));
    assert_eq!(mp.what, "d");
}

#[test]
fn detailed_line_several_tags() {
    let line = "36 35 98:0 /mnt1 /mnt2 rw,noatime master:1 shared:2 - ext3 /dev/root rw,errors=continue";
    let mp = MountPoint::parse_proc_mountinfo_line(line).unwrap();
    assert_eq!(mp.id, Some(36));
    assert_eq!(mp.root, Some("/mnt1".to_string()));
    assert_eq!(mp.path, "/mnt2");
    assert_eq!(mp.fstype, FsType::Ext3);
    assert_eq!(mp.what, "/dev/root");
    assert_eq!(mp.options.others, vec!["noatime".to_string()]);
}

#[test]
fn unicode_whitespace_separates_fields() {
    assert_eq!(MountInfo::parse_mtab("\u{a0}").unwrap().len(), 0);
    assert_eq!(MountInfo::parse_mtab("\u{3000}\n\u{2028}\n").unwrap().len(), 0);
    let v = MountInfo::parse_mtab("a\u{a0}b c d").unwrap();
    assert_eq!(v.len(), 1);
    assert_eq!(v[0].what, "a");
    assert_eq!(v[0].path, "b");
    assert_eq!(v[0].fstype, FsType::Other("c".to_string()));
    assert_eq!(v[0].options.others, vec!["d".to_string()]);
    let mp = MountPoint::parse_proc_mountinfo_line("7\u{a0}8 0:1 / /x rw - tmpfs none rw").unwrap();
    assert_eq!(mp.id, Some(7));
    assert_eq!(mp.parent_id, Some(8));
    assert_eq!(mp.fstype, FsType::Tmpfs);
}

#[test]
fn fstype_from_str_never_fails() {
    assert_eq!(FsType::from_str("proc"), Ok(FsType::Proc));
    assert_eq!(FsType::from_str("overlay"), Ok(FsType::Overlay));
    assert_eq!("devtmpfs".parse::<FsType>(), Ok(FsType::Devtmpfs));
    assert_eq!(FsType::from_str("TMPFS"), Ok(FsType::Other("TMPFS".to_string())));
    assert_eq!(FsType::from_str(" tmpfs"), Ok(FsType::Other(" tmpfs".to_string())));
    assert_eq!(FsType::from_str(""), Ok(FsType::Other(String::new())));
    for fs in [FsType::Sysfs, FsType::Btrfs, FsType::Ext2, FsType::Other("vfat".to_string())] {
        assert_eq!(FsType::from_str(fs.as_str()), Ok(fs));
    }
}

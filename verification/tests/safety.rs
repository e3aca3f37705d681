use nlsh::safety::{is_destructive, matches_destructive_pattern};

#[test]
fn rm_rf_is_destructive() {
    assert!(is_destructive("rm -rf /tmp/test"));
}

#[test]
fn ls_is_not_destructive() {
    assert!(!is_destructive("ls -la"));
}

#[test]
fn dd_is_destructive() {
    assert!(is_destructive("dd if=/dev/urandom of=/dev/sda"));
}

#[test]
fn uppercase_is_lowered_first() {
    assert!(is_destructive("RM -RF /"));
    assert!(is_destructive("Diskutil EraseDisk JHFS+ x disk2"));
    assert!(!matches_destructive_pattern("RM -RF /"));
}

#[test]
fn each_pattern_is_found() {
    for p in [
        "rm -rf", "rm -fr", "rm -r", "dd if=", "mkfs", ":(){ :|:", "chmod -r 777", "chmod 777",
        "> /dev/", "shred ", "wipefs", "fdisk", "diskutil erasedisk", "diskutil erasevolume",
        "format ", "truncate ", "mv / ", "mv /* ",
    ] {
        assert!(matches_destructive_pattern(p), "{p}");
        assert!(matches_destructive_pattern(&format!("sudo {p} x")), "{p}");
    }
}

#[test]
fn near_misses_are_not_destructive() {
    assert!(!is_destructive("rmdir x"));
    assert!(!is_destructive("echo format"));
    assert!(!is_destructive("chmod 755 file"));
    assert!(!is_destructive(""));
}

#[test]
fn patterns_ignore_case() {
    assert!(is_destructive("Rm -Rf /tmp"));
    assert!(is_destructive("MKFS.ext4 /dev/sdb1"));
    assert!(is_destructive("CHMOD -R 777 /"));
    assert!(!is_destructive("LS -LA"));
    assert!(is_destructive("ÉCHO; rm -rf x"));
}

#[test]
fn case_of_ascii_letters_never_matters() {
    for cmd in ["ÉCHO; rm -rf x", "Ωmkfs /dev/sdb", "ls ü", "über dd if=/dev/zero"] {
        assert_eq!(is_destructive(cmd), is_destructive(&cmd.to_ascii_uppercase()));
        assert_eq!(is_destructive(cmd), is_destructive(&cmd.to_ascii_lowercase()));
    }
    assert!(is_destructive("ÉCHO; RM -RF x"));
}

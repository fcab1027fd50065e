use gvm_guest::common::GVMError;
use gvm_guest::networking::{find_mac, Interface};

fn nic(name: &str, address: &str) -> Interface {
    Interface { name: name.to_string(), address: Some(address.to_string()) }
}

fn unreadable(name: &str) -> Interface {
    Interface { name: name.to_string(), address: None }
}

#[test]
fn find_mac_finds_the_interface() {
    let listing = vec![
        nic("lo", "00:00:00:00:00:00\n"),
        nic("eth0", "52:54:00:12:34:56\n"),
        nic("eth1", "52:54:00:ab:cd:ef\n"),
    ];
    assert_eq!(find_mac(&"52:54:00:12:34:56".to_string(), &listing), Ok("eth0".to_string()));
    assert_eq!(find_mac(&"52:54:00:ab:cd:ef".to_string(), &listing), Ok("eth1".to_string()));
    assert_eq!(find_mac(&"00:00:00:00:00:00".to_string(), &listing), Ok("lo".to_string()));
}

#[test]
fn find_mac_without_match() {
    let listing = vec![nic("lo", "00:00:00:00:00:00\n"), nic("eth0", "52:54:00:12:34:56\n")];
    assert_eq!(
        find_mac(&"52:54:00:00:00:01".to_string(), &listing),
        Err(GVMError::NicNotFound)
    );
}

#[test]
fn find_mac_in_empty_listing() {
    let listing: Vec<Interface> = Vec::new();
    assert_eq!(find_mac(&"52:54:00:12:34:56".to_string(), &listing), Err(GVMError::NicNotFound));
    assert_eq!(find_mac(&"".to_string(), &listing), Err(GVMError::NicNotFound));
}

#[test]
fn find_mac_compares_case_sensitively() {
    let listing = vec![nic("eth0", "52:54:00:ab:cd:ef\n")];
    assert_eq!(
        find_mac(&"52:54:00:AB:CD:EF".to_string(), &listing),
        Err(GVMError::NicNotFound)
    );
    assert_eq!(find_mac(&"52:54:00:ab:cd:ef".to_string(), &listing), Ok("eth0".to_string()));
}

#[test]
fn find_mac_trims_one_trailing_line_feed_of_the_listing() {
    let listing = vec![nic("a", "aa\n\n"), nic("b", "aa\n"), nic("c", "aa")];
    assert_eq!(find_mac(&"aa".to_string(), &listing), Ok("b".to_string()));
    assert_eq!(find_mac(&"aa\n".to_string(), &listing), Ok("a".to_string()));
    let bare = vec![nic("c", "aa")];
    assert_eq!(find_mac(&"aa".to_string(), &bare), Ok("c".to_string()));
    assert_eq!(find_mac(&"aa\n".to_string(), &bare), Err(GVMError::NicNotFound));
}

#[test]
fn find_mac_does_not_trim_other_white_space() {
    let listing = vec![nic("a", " aa\n"), nic("b", "aa \n"), nic("c", "aa\r\n")];
    assert_eq!(find_mac(&"aa".to_string(), &listing), Err(GVMError::NicNotFound));
    assert_eq!(find_mac(&"aa\r".to_string(), &listing), Ok("c".to_string()));
}

#[test]
fn find_mac_takes_the_first_of_two_matches() {
    let listing = vec![nic("eth0", "aa\n"), nic("eth1", "aa\n")];
    assert_eq!(find_mac(&"aa".to_string(), &listing), Ok("eth0".to_string()));
}

#[test]
fn find_mac_stops_at_an_unreadable_interface() {
    let listing = vec![nic("lo", "00\n"), unreadable("bonding_masters"), nic("eth0", "aa\n")];
    assert_eq!(find_mac(&"aa".to_string(), &listing), Err(GVMError::IOError));
    assert_eq!(find_mac(&"zz".to_string(), &listing), Err(GVMError::IOError));
}

#[test]
fn find_mac_does_not_look_past_the_match() {
    let listing = vec![nic("lo", "00\n"), nic("eth0", "aa\n"), unreadable("bonding_masters")];
    assert_eq!(find_mac(&"aa".to_string(), &listing), Ok("eth0".to_string()));
    assert_eq!(find_mac(&"00".to_string(), &listing), Ok("lo".to_string()));
    assert_eq!(find_mac(&"zz".to_string(), &listing), Err(GVMError::IOError));
}

#[test]
fn find_mac_matches_an_empty_address() {
    let listing = vec![nic("tun0", "\n"), nic("eth0", "aa\n")];
    assert_eq!(find_mac(&"".to_string(), &listing), Ok("tun0".to_string()));
}

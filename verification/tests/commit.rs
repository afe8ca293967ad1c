use localbench::commit::{from_counters, parse_free_virtual_kib};

const GIB_BYTES: u64 = 1_073_741_824;

#[test]
fn sysinfo_only_knows_windows_commit_headroom_while_commit_exceeds_ram() {
    // Commit charge below RAM: no used swap and a free swap equal to the page
    // file, which is not the headroom.
    assert_eq!(from_counters(true, 53 * GIB_BYTES, 57 * GIB_BYTES, 0), None);
    // Commit above RAM: the free part is exactly the headroom.
    assert_eq!(
        from_counters(true, 2 * GIB_BYTES, 5 * GIB_BYTES, 11 * GIB_BYTES),
        Some(5 * GIB_BYTES)
    );
}

#[test]
fn without_a_commit_limit_the_headroom_is_available_ram_plus_free_swap() {
    assert_eq!(
        from_counters(false, 40 * GIB_BYTES, 12 * GIB_BYTES, 0),
        Some(52 * GIB_BYTES)
    );
    assert_eq!(from_counters(false, u64::MAX, 1, 0), Some(u64::MAX));
}

#[test]
fn the_os_answer_is_one_positive_kib_count() {
    assert_eq!(parse_free_virtual_kib("110761856\r\n"), Some(110_761_856));
    assert_eq!(parse_free_virtual_kib(""), None);
    assert_eq!(parse_free_virtual_kib("0"), None);
    assert_eq!(
        parse_free_virtual_kib("Get-CimInstance : Access denied"),
        None
    );
}

#[test]
fn an_os_answer_beyond_the_counter_is_refused() {
    assert_eq!(
        parse_free_virtual_kib("18446744073709551615"),
        Some(u64::MAX)
    );
    assert_eq!(parse_free_virtual_kib("18446744073709551616"), None);
    assert_eq!(parse_free_virtual_kib(" +7 "), Some(7));
    assert_eq!(parse_free_virtual_kib("-7"), None);
}

use humanize::bytes::{
    bytes, ibytes, EI_BYTE, E_BYTE, GI_BYTE, G_BYTE, KI_BYTE, K_BYTE, MI_BYTE, M_BYTE, PI_BYTE,
    P_BYTE, TI_BYTE, T_BYTE,
};

#[test]
fn test_bytes() {
    struct BytesTest(u64, &'static str);

    let tests = vec![
        BytesTest(0, "0 B"),
        BytesTest(K_BYTE * 1, "1 kB"),
        BytesTest(K_BYTE * 5, "5 kB"),
        BytesTest(M_BYTE * 1, "1 MB"),
        BytesTest(M_BYTE * 5, "5 MB"),
        BytesTest(G_BYTE * 1, "1 GB"),
        BytesTest(G_BYTE * 5, "5 GB"),
        BytesTest(T_BYTE * 1, "1 TB"),
        BytesTest(T_BYTE * 5, "5 TB"),
        BytesTest(P_BYTE * 1, "1 PB"),
        BytesTest(P_BYTE * 5, "5 PB"),
        BytesTest(E_BYTE * 1, "1 EB"),
        BytesTest(E_BYTE * 5, "5 EB"),
    ];

    for test in tests.iter() {
        let fmted = bytes(test.0);
        assert_eq!(fmted, test.1);
    }
}

#[test]
fn test_ibytes() {
    struct IBytesTest(u64, &'static str);

    let tests = vec![
        IBytesTest(0, "0 B"),
        IBytesTest(KI_BYTE * 1, "1 KiB"),
        IBytesTest(KI_BYTE * 5, "5 KiB"),
        IBytesTest(MI_BYTE * 1, "1 MiB"),
        IBytesTest(MI_BYTE * 5, "5 MiB"),
        IBytesTest(GI_BYTE * 1, "1 GiB"),
        IBytesTest(GI_BYTE * 5, "5 GiB"),
        IBytesTest(TI_BYTE * 1, "1 TiB"),
        IBytesTest(TI_BYTE * 5, "5 TiB"),
        IBytesTest(PI_BYTE * 1, "1 PiB"),
        IBytesTest(PI_BYTE * 5, "5 PiB"),
        IBytesTest(EI_BYTE * 1, "1 EiB"),
        IBytesTest(EI_BYTE * 5, "5 EiB"),
    ];

    for test in tests.iter() {
        let fmted = ibytes(test.0);
        assert_eq!(fmted, test.1);
    }
}

#[test]
fn binary_kilo_is_written_with_a_capital() {
    assert_ne!(ibytes(KI_BYTE * 5), "5 kiB");
    assert_eq!(ibytes(5 * 1024), "5 KiB");
}

#[test]
fn units_are_powers_of_their_base() {
    assert_eq!(K_BYTE, 1000);
    assert_eq!(E_BYTE, 1000u64.pow(6));
    assert_eq!(KI_BYTE, 1 << 10);
    assert_eq!(MI_BYTE, 1 << 20);
    assert_eq!(GI_BYTE, 1 << 30);
    assert_eq!(TI_BYTE, 1 << 40);
    assert_eq!(PI_BYTE, 1 << 50);
    assert_eq!(EI_BYTE, 1 << 60);
}

#[test]
fn sizes_below_ten_are_written_plainly() {
    for n in 0..10u64 {
        assert_eq!(bytes(n), format!("{} B", n));
        assert_eq!(ibytes(n), format!("{} B", n));
    }
}

#[test]
fn counts_from_ten_on_carry_a_decimal_place() {
    assert_eq!(bytes(10), "10.0 B");
    assert_eq!(bytes(999), "999.0 B");
    assert_eq!(ibytes(1023), "1023.0 B");
    assert_eq!(bytes(10 * K_BYTE), "10.0 kB");
    assert_eq!(bytes(999_999), "999.0 kB");
    assert_eq!(ibytes(10 * MI_BYTE), "10.0 MiB");
    assert_eq!(bytes(123 * G_BYTE), "123.0 GB");
}

#[test]
fn counts_are_rounded_down() {
    assert_eq!(bytes(1_999), "1 kB");
    assert_eq!(bytes(9_999), "9 kB");
    assert_eq!(ibytes(2 * KI_BYTE - 1), "1 KiB");
    assert_eq!(bytes(5 * M_BYTE - 1), "4 MB");
}

#[test]
fn unit_changes_exactly_at_a_power_of_the_base() {
    assert_eq!(bytes(K_BYTE - 1), "999.0 B");
    assert_eq!(bytes(K_BYTE), "1 kB");
    assert_eq!(ibytes(KI_BYTE - 1), "1023.0 B");
    assert_eq!(ibytes(KI_BYTE), "1 KiB");
    assert_eq!(bytes(M_BYTE - 1), "999.0 kB");
    assert_eq!(bytes(E_BYTE - 1), "999.0 PB");
    assert_eq!(ibytes(EI_BYTE - 1), "1023.0 PiB");
    assert_eq!(ibytes(1000), "1000.0 B");
    assert_eq!(bytes(1024), "1 kB");
}

#[test]
fn largest_sizes_keep_the_largest_unit() {
    assert_eq!(bytes(u64::MAX), "18.0 EB");
    assert_eq!(ibytes(u64::MAX), "15.0 EiB");
    assert_eq!(bytes(10 * E_BYTE), "10.0 EB");
}

#[test]
fn bytes_gives_the_same_text_every_time() {
    for n in [0u64, 7, 10, 1_500, 5 * G_BYTE, u64::MAX] {
        assert_eq!(bytes(n), bytes(n));
        assert_eq!(ibytes(n), ibytes(n));
    }
}

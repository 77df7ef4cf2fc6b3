use eucalypt::symbols::lookup_symbol;

const MAP: &[u8] = b"ffffffff80000000 T _start\n\
ffffffff80001000 t helper\n\
ffffffff80002000 D data\n\
ffffffff80003000 T kmain\n";

#[test]
fn symbol_at_or_below_address() {
    assert_eq!(lookup_symbol(MAP, 0xffff_ffff_8000_1010), Some((&b"helper"[..], 0x10)));
    assert_eq!(lookup_symbol(MAP, 0xffff_ffff_8000_3000), Some((&b"kmain"[..], 0)));
    assert_eq!(lookup_symbol(MAP, 0xffff_ffff_9000_0000), Some((&b"kmain"[..], 0xFFF_D000)));
    // data symbols do not count
    assert_eq!(lookup_symbol(MAP, 0xffff_ffff_8000_2500), Some((&b"helper"[..], 0x1500)));
}

#[test]
fn symbol_none_below_first() {
    assert_eq!(lookup_symbol(MAP, 0x1000), None);
    assert_eq!(lookup_symbol(b"", 0x1000), None);
    // a symbol at address zero is never chosen
    assert_eq!(lookup_symbol(b"0 T null\n", 0x10), None);
}

#[test]
fn symbol_unreadable_line_names_nothing() {
    assert_eq!(lookup_symbol(b"1000 T a\n\n2000 T b\n", 0x2000), None);
    assert_eq!(lookup_symbol(b"1000 T a\nzz T b\n", 0x1000), None);
    assert_eq!(lookup_symbol(b"1000 T\n", 0x1000), None);
    assert_eq!(lookup_symbol(b"1000 T a\n10000000000000000 T b\n", 0x1000), None);
}

#[test]
fn symbol_map_text_details() {
    // Windows line ends, tabs, a leading plus and upper-case digits are read
    let map = b"+1A00\tT\tfirst\r\n1a00 T second\r\n2000 t third";
    assert_eq!(lookup_symbol(map, 0x1A05), Some((&b"first"[..], 5)));
    assert_eq!(lookup_symbol(map, 0x2001), Some((&b"third"[..], 1)));
    // extra tokens after the name are ignored; kinds other than T and t are not text
    assert_eq!(lookup_symbol(b"1000 T a extra\n1800 TT b\n", 0x1900), Some((&b"a"[..], 0x900)));
    assert_eq!(lookup_symbol(b"+ T a\n", 0x10), None);
}

use yuyuko::utils::text::trim_bounds;

/// The characters with the property `White_Space`.
fn is_listed(c: char) -> bool {
    matches!(
        c,
        '\u{9}'..='\u{d}'
            | ' '
            | '\u{85}'
            | '\u{a0}'
            | '\u{1680}'
            | '\u{2000}'..='\u{200a}'
            | '\u{2028}'
            | '\u{2029}'
            | '\u{202f}'
            | '\u{205f}'
            | '\u{3000}'
    )
}

#[test]
fn white_space_is_what_the_list_says() {
    let mut listed = 0;
    for code in 0..=0x10_FFFFu32 {
        let Some(c) = char::from_u32(code) else {
            continue;
        };
        let chars = vec!['a', c, 'b', c];
        let bounds = trim_bounds(&chars, 1, 2);
        assert_eq!(bounds.0 == bounds.1, is_listed(c), "{code:#x}");
        assert_eq!(c.is_whitespace(), is_listed(c), "{code:#x}");
        assert_eq!(trim_bounds(&chars, 0, 4), if is_listed(c) { (0, 3) } else { (0, 4) });
        if is_listed(c) {
            listed += 1;
        }
    }
    assert_eq!(listed, 25);
}

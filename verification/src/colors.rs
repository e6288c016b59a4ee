//! The color palette file: the dominant colors of the wallpaper as
//! hexadecimal entries of a TOML table.

use vstd::prelude::*;
use vstd::string::StrSliceExecFns;

verus! {

/// The lines that open the palette file.
pub open spec fn palette_header() -> Seq<char> {
    "# Wallman color palette\n# Generated from current wallpaper\n\n"@
}

/// The lower-case hexadecimal digit of `n`, for `n` below 16.
pub open spec fn hex_digit(n: int) -> char {
    seq!['0', '1', '2', '3', '4', '5', '6', '7', '8', '9', 'a', 'b', 'c', 'd', 'e', 'f'][n]
}

/// The value of a lower-case hexadecimal digit: `0`-`9` count from zero,
/// `a`-`f` from ten; any other character has none.
pub open spec fn hex_value(c: char) -> int {
    if '0' <= c && c <= '9' {
        c as int - '0' as int
    } else if 'a' <= c && c <= 'f' {
        c as int - 'a' as int + 10
    } else {
        -1
    }
}

/// The two lower-case hexadecimal digits of a byte.
pub open spec fn hex_byte(b: u8) -> Seq<char> {
    seq![hex_digit(b as int / 16), hex_digit(b as int % 16)]
}

/// The key of the `i`-th color of the palette.
pub open spec fn palette_key(i: int) -> Seq<char> {
    if i == 0 {
        "primary"@
    } else if i == 1 {
        "secondary"@
    } else if i == 2 {
        "tertiary"@
    } else if i == 3 {
        "quaternary"@
    } else {
        "quinary"@
    }
}

/// The line of the `i`-th color: `key = "#rrggbb"`.
pub open spec fn color_line(i: int, c: (u8, u8, u8)) -> Seq<char> {
    palette_key(i) + " = \"#"@ + hex_byte(c.0) + hex_byte(c.1) + hex_byte(c.2) + "\"\n"@
}

/// The lines of the first `n` colors.
pub open spec fn color_lines(colors: Seq<(u8, u8, u8)>, n: int) -> Seq<char>
    decreases n,
{
    if n <= 0 {
        Seq::empty()
    } else {
        color_lines(colors, n - 1) + color_line(n - 1, colors[n - 1])
    }
}

/// The number of colors written: at most five.
pub open spec fn written_colors(len: int) -> int {
    if len < 5 {
        len
    } else {
        5
    }
}

/// The palette file for the given colors, none for an empty palette.
pub open spec fn palette_file(colors: Seq<(u8, u8, u8)>) -> Option<Seq<char>> {
    if colors.len() == 0 {
        None
    } else {
        Some(palette_header() + color_lines(colors, written_colors(colors.len() as int)))
    }
}

fn palette_key_str(i: usize) -> (k: &'static str)
    requires
        i < 5,
    ensures
        k@ == palette_key(i as int),
{
    if i == 0 {
        "primary"
    } else if i == 1 {
        "secondary"
    } else if i == 2 {
        "tertiary"
    } else if i == 3 {
        "quaternary"
    } else {
        "quinary"
    }
}

/// Appends the two hexadecimal digits of `b`.
fn push_hex_byte(out: &mut String, b: u8)
    ensures
        final(out)@ == old(out)@ + hex_byte(b),
        final(out)@.len() == old(out)@.len() + 2,
        final(out)@.subrange(0, old(out)@.len() as int) == old(out)@,
        16 * hex_value(final(out)@[old(out)@.len() as int]) + hex_value(final(out)@[old(out)@.len() as int + 1])
            == b,
{
    proof {
        lemma_hex_byte_reads_back(b);
    }
    let digits = "0123456789abcdef";
    proof {
        reveal_strlit("0123456789abcdef");
    }
    let hi = (b / 16) as usize;
    let lo = (b % 16) as usize;
    let h = digits.substring_char(hi, hi + 1);
    let l = digits.substring_char(lo, lo + 1);
    out.append(h);
    out.append(l);
    proof {
        let table = seq!['0', '1', '2', '3', '4', '5', '6', '7', '8', '9', 'a', 'b', 'c', 'd', 'e', 'f'];
        assert(digits@ =~= table);
        assert(h@ =~= seq![hex_digit(b as int / 16)]);
        assert(l@ =~= seq![hex_digit(b as int % 16)]);
        assert(final(out)@ =~= old(out)@ + hex_byte(b));
        assert(final(out)@.subrange(0, old(out)@.len() as int) =~= old(out)@);
        assert(final(out)@[old(out)@.len() as int] == hex_byte(b)[0]);
        assert(final(out)@[old(out)@.len() as int + 1] == hex_byte(b)[1]);
    }
}

/// A color's line holds its key, then ` = "#`, then the red, green and blue
/// bytes, each as two hexadecimal digits that read back as the byte, then
/// `"` and a line break.
pub proof fn lemma_color_line_reads_back(i: int, c: (u8, u8, u8))
    ensures
        ({
            let line = color_line(i, c);
            let k = palette_key(i).len() as int + 5;
            &&& line.len() == k + 8
            &&& line.subrange(0, k - 5) == palette_key(i)
            &&& line[k - 1] == '#'
            &&& 16 * hex_value(line[k]) + hex_value(line[k + 1]) == c.0
            &&& 16 * hex_value(line[k + 2]) + hex_value(line[k + 3]) == c.1
            &&& 16 * hex_value(line[k + 4]) + hex_value(line[k + 5]) == c.2
            &&& line[k + 6] == '"'
            &&& line[k + 7] == '\n'
        }),
{
    reveal_strlit(" = \"#");
    reveal_strlit("\"\n");
    lemma_hex_byte_reads_back(c.0);
    lemma_hex_byte_reads_back(c.1);
    lemma_hex_byte_reads_back(c.2);
    let line = color_line(i, c);
    let k = palette_key(i).len() as int + 5;
    assert(line.subrange(0, k - 5) =~= palette_key(i));
    assert(line[k - 1] == " = \"#"@[4]);
    assert(line[k] == hex_byte(c.0)[0]);
    assert(line[k + 1] == hex_byte(c.0)[1]);
    assert(line[k + 2] == hex_byte(c.1)[0]);
    assert(line[k + 3] == hex_byte(c.1)[1]);
    assert(line[k + 4] == hex_byte(c.2)[0]);
    assert(line[k + 5] == hex_byte(c.2)[1]);
    assert(line[k + 6] == "\"\n"@[0]);
    assert(line[k + 7] == "\"\n"@[1]);
}

/// The lines of the first `n` colors depend on those colors alone.
proof fn lemma_color_lines_prefix(a: Seq<(u8, u8, u8)>, b: Seq<(u8, u8, u8)>, n: int)
    requires
        0 <= n <= a.len(),
        n <= b.len(),
        forall|i: int| 0 <= i < n ==> a[i] == b[i],
    ensures
        color_lines(a, n) == color_lines(b, n),
    decreases n,
{
    if n > 0 {
        lemma_color_lines_prefix(a, b, n - 1);
    }
}

/// A palette of one color is its line after the header; a color added to a
/// palette of fewer than five adds its line at the end, keyed by its place;
/// a color added after the fifth changes nothing.
pub proof fn lemma_palette_grows_line_by_line(colors: Seq<(u8, u8, u8)>, c: (u8, u8, u8))
    ensures
        colors.len() == 0 ==> palette_file(colors.push(c)) == Some(palette_header() + color_line(0, c)),
        0 < colors.len() < 5 ==> palette_file(colors.push(c)) == Some(
            palette_file(colors)->0 + color_line(colors.len() as int, c),
        ),
        colors.len() >= 5 ==> palette_file(colors.push(c)) == palette_file(colors),
{
    let more = colors.push(c);
    let n = colors.len() as int;
    if n < 5 {
        lemma_color_lines_prefix(colors, more, n);
        assert(more[n] == c);
        assert(color_lines(more, n + 1) == color_lines(more, n) + color_line(n, more[n]));
        if n == 0 {
            assert(color_lines(more, 0) =~= Seq::<char>::empty());
            assert(palette_header() + color_line(0, c) =~= palette_header() + (Seq::<char>::empty() + color_line(0, c)));
        } else {
            assert(palette_header() + color_lines(more, n + 1) =~= palette_header() + color_lines(colors, n) + color_line(n, c));
        }
    } else {
        lemma_color_lines_prefix(colors, more, 5);
    }
}

/// Each digit is the lower-case hexadecimal digit of its value: `0`-`9`,
/// then `a`-`f`.
pub proof fn lemma_hex_digit_value(n: int)
    requires
        0 <= n < 16,
    ensures
        hex_value(hex_digit(n)) == n,
        n < 10 ==> hex_digit(n) as int == '0' as int + n,
        n >= 10 ==> hex_digit(n) as int == 'a' as int + n - 10,
{
    let t = seq!['0', '1', '2', '3', '4', '5', '6', '7', '8', '9', 'a', 'b', 'c', 'd', 'e', 'f'];
    assert(hex_digit(n) == t[n]);
    if n == 0 { assert(t[0] == '0'); }
    else if n == 1 { assert(t[1] == '1'); }
    else if n == 2 { assert(t[2] == '2'); }
    else if n == 3 { assert(t[3] == '3'); }
    else if n == 4 { assert(t[4] == '4'); }
    else if n == 5 { assert(t[5] == '5'); }
    else if n == 6 { assert(t[6] == '6'); }
    else if n == 7 { assert(t[7] == '7'); }
    else if n == 8 { assert(t[8] == '8'); }
    else if n == 9 { assert(t[9] == '9'); }
    else if n == 10 { assert(t[10] == 'a'); }
    else if n == 11 { assert(t[11] == 'b'); }
    else if n == 12 { assert(t[12] == 'c'); }
    else if n == 13 { assert(t[13] == 'd'); }
    else if n == 14 { assert(t[14] == 'e'); }
    else { assert(t[15] == 'f'); }
}

/// The two digits written for a byte read back as that byte: the high digit
/// counts sixteens, the low one units, each a lower-case hexadecimal digit.
pub proof fn lemma_hex_byte_reads_back(b: u8)
    ensures
        hex_byte(b).len() == 2,
        16 * hex_value(hex_byte(b)[0]) + hex_value(hex_byte(b)[1]) == b,
        0 <= hex_value(hex_byte(b)[0]) < 16,
        0 <= hex_value(hex_byte(b)[1]) < 16,
{
    lemma_hex_digit_value(b as int / 16);
    lemma_hex_digit_value(b as int % 16);
}

/// The contents of the palette file for the given colors: two comment lines
/// and a blank line, then one `key = "#rrggbb"` line for each of the first
/// five colors; none for an empty palette.
pub fn palette_file_contents(colors: &[(u8, u8, u8)]) -> (r: Option<String>)
    ensures
        match r {
            Some(s) => palette_file(colors@) == Some(s@),
            None => palette_file(colors@) is None,
        },
{
    if colors.len() == 0 {
        return None;
    }
    let mut out = String::from_str("# Wallman color palette\n# Generated from current wallpaper\n\n");
    let n: usize = if colors.len() < 5 {
        colors.len()
    } else {
        5
    };
    let mut i: usize = 0;
    while i < n
        invariant
            n <= 5,
            n <= colors@.len(),
            i <= n,
            out@ == palette_header() + color_lines(colors@, i as int),
        decreases n - i,
    {
        let c = colors[i];
        out.append(palette_key_str(i));
        out.append(" = \"#");
        push_hex_byte(&mut out, c.0);
        push_hex_byte(&mut out, c.1);
        push_hex_byte(&mut out, c.2);
        out.append("\"\n");
        assert(out@ =~= palette_header() + color_lines(colors@, i + 1));
        i = i + 1;
    }
    Some(out)
}

} // verus!

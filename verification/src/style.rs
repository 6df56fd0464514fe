use vstd::prelude::*;

use vstd::string::StringSliceAdditionalSpecFns;
use vstd::utf8::{
    decode_utf8, decode_utf8_encode_utf8, encode_utf8, encode_utf8_decode_utf8,
    encode_utf8_valid_utf8, is_char_boundary, leading_byte_width_3, is_char_boundary_iff_not_is_continuation_byte,
    valid_utf8_concat, valid_utf8_split,
};

use crate::report::{Line, Said};
use crate::text::{chars_of, string_views, trim, trim_chars};
use crate::tui::Tone;

verus! {

/// A green check mark.
pub const CHECK: &'static str = "\x1b[32m\u{2713}\x1b[0m";
/// A red cross.
pub const CROSS: &'static str = "\x1b[31m\u{2717}\x1b[0m";
/// A cyan arrow head.
pub const ARROW: &'static str = "\x1b[36m\u{25b8}\x1b[0m";
/// A gray dot.
pub const DOT: &'static str = "\x1b[90m\u{25cf}\x1b[0m";
/// A yellow exclamation mark.
pub const WARN: &'static str = "\x1b[33m!\x1b[0m";
/// A gray dash.
pub const DASH: &'static str = "\x1b[90m\u{2500}\x1b[0m";
/// Bold text.
pub const BOLD: &'static str = "\x1b[1m";
/// Dim text.
pub const DIM: &'static str = "\x1b[2m";
/// Italic text.
pub const ITALIC: &'static str = "\x1b[3m";
/// Back to plain text.
pub const RESET: &'static str = "\x1b[0m";
/// Cyan text.
pub const CYAN: &'static str = "\x1b[36m";
/// Green text.
pub const GREEN: &'static str = "\x1b[32m";
/// Red text.
pub const RED: &'static str = "\x1b[31m";
/// Yellow text.
pub const YELLOW: &'static str = "\x1b[33m";
/// Magenta text.
pub const MAGENTA: &'static str = "\x1b[35m";
/// Bright white text.
pub const WHITE: &'static str = "\x1b[97m";
/// Gray text.
pub const GRAY: &'static str = "\x1b[90m";
/// A dark gray background.
pub const BG_GRAY: &'static str = "\x1b[48;5;236m";

/// The UTF-8 form of two joined texts is the two forms joined.
pub proof fn lemma_encode_utf8_concat(a: Seq<char>, b: Seq<char>)
    ensures
        encode_utf8(a + b) == encode_utf8(a) + encode_utf8(b),
    decreases a.len(),
{
    if a.len() > 0 {
        lemma_encode_utf8_concat(a.drop_first(), b);
        assert((a + b).drop_first() =~= a.drop_first() + b);
        assert((a + b)[0] == a[0]);
    } else {
        assert(a + b =~= b);
    }
}

/// `s` shortened for a column of `max` bytes: whole where its UTF-8 form
/// fits, else the characters of its first `max - 1` bytes and an ellipsis.
pub open spec fn shortened(s: Seq<char>, max: nat) -> Seq<char> {
    if encode_utf8(s).len() <= max {
        s
    } else {
        decode_utf8(encode_utf8(s).take(max - 1)) + "\u{2026}"@
    }
}

/// Shortening a text for a column twice gives what shortening it once
/// gives, and the shortened text may itself be shortened again.
pub proof fn law_truncate_idempotent(s: Seq<char>, max: nat)
    requires
        encode_utf8(s).len() <= max || (1 <= max && is_char_boundary(encode_utf8(s), max - 1)),
    ensures
        encode_utf8(shortened(s, max)).len() <= max || (1 <= max && is_char_boundary(
            encode_utf8(shortened(s, max)),
            max - 1,
        )),
        shortened(shortened(s, max), max) == shortened(s, max),
{
    if encode_utf8(s).len() > max {
        let b = encode_utf8(s);
        let t = b.take(max - 1);
        encode_utf8_valid_utf8(s);
        valid_utf8_split(b, max - 1);
        assert(b.subrange(0, max - 1) =~= t);
        decode_utf8_encode_utf8(t);
        let d = decode_utf8(t);
        let e = "\u{2026}"@;
        reveal_strlit("\u{2026}");
        assert(e =~= seq!['\u{2026}']);
        let eb = encode_utf8(e);
        assert(('\u{2026}' as u32) == 0x2026u32);
        assert(leading_byte_width_3(0x2026u32) == 0xe2u8) by (bit_vector);
        assert(encode_utf8(e.drop_first()) =~= Seq::<u8>::empty());
        assert(eb[0] == 0xe2u8);
        lemma_encode_utf8_concat(d, e);
        assert(encode_utf8(d + e) == t + eb);
        assert((t + eb).take(max - 1) =~= t);
        encode_utf8_valid_utf8(e);
        valid_utf8_concat(t, eb);
        is_char_boundary_iff_not_is_continuation_byte(t + eb, max - 1);
        assert((t + eb)[max - 1] == 0xe2u8);
    }
}

/// `s` shortened to at most `max` bytes for a table column: kept whole when
/// it fits, else its first `max - 1` bytes followed by an ellipsis.
pub fn truncate(s: &str, max: usize) -> (r: String)
    requires
        s.spec_bytes().len() <= usize::MAX,
        s.spec_bytes().len() <= max || (1 <= max && is_char_boundary(s.spec_bytes(), max - 1)),
    ensures
        s.spec_bytes().len() <= max ==> r@ == s@,
        s.spec_bytes().len() > max ==> encode_utf8(r@) == s.spec_bytes().take(max - 1)
            + encode_utf8("\u{2026}"@),
        r@ == shortened(s@, max as nat),
{
    if s.len() <= max {
        s.to_owned()
    } else {
        let (head, _) = s.split_at(max - 1);
        let mut r = head.to_owned();
        let ghost h = r@;
        proof {
            encode_utf8_decode_utf8(h);
        }
        r.append("\u{2026}");
        proof {
            lemma_encode_utf8_concat(h, "\u{2026}"@);
            assert(s.spec_bytes().subrange(0, max - 1) =~= s.spec_bytes().take(max - 1));
        }
        r
    }
}

/// The reply to a yes-or-no question means yes: it is `y` or `Y`, with
/// surrounding white space ignored.
pub open spec fn is_yes_answer(input: Seq<char>) -> bool {
    trim(input) == seq!['y'] || trim(input) == seq!['Y']
}

/// Whether the line typed at a confirmation prompt means yes.
pub fn answer_is_yes(input: &str) -> (b: bool)
    ensures
        b == is_yes_answer(input@),
{
    let chars = chars_of(input);
    let t = trim_chars(&chars);
    if t.len() == 1 && (t[0] == 'y' || t[0] == 'Y') {
        assert(t@ =~= seq![t[0]]);
        true
    } else {
        false
    }
}

/// `s` padded with spaces on the right to `width` characters, as `{:<width}` formats it.
pub open spec fn pad(s: Seq<char>, width: nat) -> Seq<char> {
    if s.len() >= width {
        s
    } else {
        s + Seq::new((width - s.len()) as nat, |i: int| ' ')
    }
}

/// Appends `s` padded with spaces on the right to `width` characters.
fn push_padded(out: &mut String, s: &str, width: usize)
    ensures
        final(out)@ == old(out)@ + pad(s@, width as nat),
{
    let ghost start = out@;
    out.append(s);
    let n = chars_of(s).len();
    let mut k = n;
    while k < width
        invariant
            n == s@.len(),
            k == n || k <= width,
            k >= n,
            out@ == start + s@ + Seq::new((k - n) as nat, |i: int| ' '),
        decreases width - k,
    {
        crate::text::push_char(out, ' ');
        assert(out@ =~= start + s@ + Seq::new((k + 1 - n) as nat, |i: int| ' '));
        k += 1;
    }
    if n >= width {
        assert(out@ =~= start + pad(s@, width as nat));
    } else {
        assert(out@ =~= start + pad(s@, width as nat));
    }
}

/// A horizontal rule of `n` box-drawing dashes.
pub open spec fn rule(n: nat) -> Seq<char> {
    Seq::new(n, |i: int| '\u{2500}')
}

/// The escape code that shows text in the tone `t`.
pub open spec fn tone_code(t: Tone) -> Seq<char> {
    match t {
        Tone::Plain => Seq::empty(),
        Tone::Yellow => YELLOW@,
        Tone::Green => GREEN@,
        Tone::Red => RED@,
        Tone::Magenta => MAGENTA@,
        Tone::DarkGray => GRAY@,
    }
}

fn push_tone(out: &mut String, t: Tone)
    ensures
        final(out)@ == old(out)@ + tone_code(t),
{
    match t {
        Tone::Plain => {
            assert(out@ =~= out@ + Seq::<char>::empty());
        },
        Tone::Yellow => out.append(YELLOW),
        Tone::Green => out.append(GREEN),
        Tone::Red => out.append(RED),
        Tone::Magenta => out.append(MAGENTA),
        Tone::DarkGray => out.append(GRAY),
    }
}

/// Whether a line can be shown: a table row's path is cut at a character
/// boundary, or fits.
pub open spec fn renderable(l: Said) -> bool {
    match l {
        Said::TableRow(_, p, _, _, _) => encode_utf8(p).len() <= usize::MAX && (encode_utf8(p).len()
            <= 32 || is_char_boundary(encode_utf8(p), 31)),
        _ => true,
    }
}

/// The terminal text of a line, one entry per printed line.
pub open spec fn rendered(l: Said) -> Seq<Seq<char>> {
    match l {
        Said::Blank => seq![Seq::empty()],
        Said::Heading(t) => seq!["  "@ + BOLD@ + WHITE@ + t + RESET@],
        Said::Section(t) => seq![Seq::empty(), "  "@ + CYAN@ + BOLD@ + "  "@ + t + RESET@],
        Said::Item(a, v) => seq!["  "@ + DOT@ + "  "@ + DIM@ + pad(a, 12) + RESET@ + " "@ + v],
        Said::ItemColored(a, v, c) => seq![
            "  "@ + DOT@ + "  "@ + DIM@ + pad(a, 12) + RESET@ + " "@ + tone_code(c) + v + RESET@,
        ],
        Said::Success(m) => seq!["  "@ + CHECK@ + " "@ + m],
        Said::Warn(m) => seq!["  "@ + WARN@ + " "@ + YELLOW@ + m + RESET@],
        Said::Error(m) => seq!["  "@ + CROSS@ + " "@ + RED@ + m + RESET@],
        Said::Hint(m) => seq!["  "@ + GRAY@ + "  "@ + m + RESET@],
        Said::Plain(t) => seq![t],
        Said::TableHeader => seq![
            "    "@ + DIM@ + pad("NAME"@, 14) + " "@ + pad("PATH"@, 32) + " "@ + pad("BRANCH"@, 10)
                + " "@ + pad("SERVICES"@, 8) + " "@ + "LAST USED"@ + RESET@,
            "  "@ + DIM@ + "  "@ + rule(82) + RESET@,
        ],
        Said::TableRow(n, p, b, sv, last) => seq![
            "  "@ + CYAN@ + "\u{25b8}"@ + RESET@ + " "@ + BOLD@ + pad(n, 14) + RESET@ + " "@ + DIM@
                + pad(shortened(p, 32), 32) + RESET@ + " "@ + MAGENTA@ + pad(b, 10) + RESET@ + " "@
                + GREEN@ + pad(sv, 8) + RESET@ + " "@ + DIM@ + last + RESET@,
        ],
        Said::EmptyState(m, h) => seq![
            Seq::empty(),
            "  "@ + DIM@ + "  "@ + m + RESET@,
            Seq::empty(),
            "  "@ + GRAY@ + "  "@ + h + RESET@,
            Seq::empty(),
        ],
    }
}

/// The terminal text of a line, one entry per printed line, as the style
/// helpers print it.
pub fn render(l: &Line) -> (r: Vec<String>)
    requires
        renderable(l@),
    ensures
        string_views(r@) == rendered(l@),
{
    let mut r: Vec<String> = Vec::new();
    match l {
        Line::Blank => {
            r.push(String::new());
        },
        Line::Heading(t) => {
            let mut s = "  ".to_owned();
            s.append(BOLD);
            s.append(WHITE);
            s.append(t.as_str());
            s.append(RESET);
            r.push(s);
        },
        Line::Section(t) => {
            r.push(String::new());
            let mut s = "  ".to_owned();
            s.append(CYAN);
            s.append(BOLD);
            s.append("  ");
            s.append(t.as_str());
            s.append(RESET);
            r.push(s);
        },
        Line::Item(a, v) => {
            let mut s = "  ".to_owned();
            s.append(DOT);
            s.append("  ");
            s.append(DIM);
            push_padded(&mut s, a.as_str(), 12);
            s.append(RESET);
            s.append(" ");
            s.append(v.as_str());
            r.push(s);
        },
        Line::ItemColored(a, v, c) => {
            let mut s = "  ".to_owned();
            s.append(DOT);
            s.append("  ");
            s.append(DIM);
            push_padded(&mut s, a.as_str(), 12);
            s.append(RESET);
            s.append(" ");
            push_tone(&mut s, *c);
            s.append(v.as_str());
            s.append(RESET);
            r.push(s);
        },
        Line::Success(m) => {
            let mut s = "  ".to_owned();
            s.append(CHECK);
            s.append(" ");
            s.append(m.as_str());
            r.push(s);
        },
        Line::Warn(m) => {
            let mut s = "  ".to_owned();
            s.append(WARN);
            s.append(" ");
            s.append(YELLOW);
            s.append(m.as_str());
            s.append(RESET);
            r.push(s);
        },
        Line::Error(m) => {
            let mut s = "  ".to_owned();
            s.append(CROSS);
            s.append(" ");
            s.append(RED);
            s.append(m.as_str());
            s.append(RESET);
            r.push(s);
        },
        Line::Hint(m) => {
            let mut s = "  ".to_owned();
            s.append(GRAY);
            s.append("  ");
            s.append(m.as_str());
            s.append(RESET);
            r.push(s);
        },
        Line::Plain(t) => {
            r.push(t.clone());
        },
        Line::TableHeader => {
            let mut s = "    ".to_owned();
            s.append(DIM);
            push_padded(&mut s, "NAME", 14);
            s.append(" ");
            push_padded(&mut s, "PATH", 32);
            s.append(" ");
            push_padded(&mut s, "BRANCH", 10);
            s.append(" ");
            push_padded(&mut s, "SERVICES", 8);
            s.append(" ");
            s.append("LAST USED");
            s.append(RESET);
            r.push(s);
            let mut d = "  ".to_owned();
            d.append(DIM);
            d.append("  ");
            let ghost start = d@;
            for i in 0..82usize
                invariant
                    d@ == start + rule(i as nat),
            {
                crate::text::push_char(&mut d, '\u{2500}');
                assert(d@ =~= start + rule((i + 1) as nat));
            }
            d.append(RESET);
            r.push(d);
        },
        Line::TableRow(n, p, b, sv, last) => {
            let mut s = "  ".to_owned();
            s.append(CYAN);
            s.append("\u{25b8}");
            s.append(RESET);
            s.append(" ");
            s.append(BOLD);
            push_padded(&mut s, n.as_str(), 14);
            s.append(RESET);
            s.append(" ");
            s.append(DIM);
            let short = truncate(p.as_str(), 32);
            push_padded(&mut s, short.as_str(), 32);
            s.append(RESET);
            s.append(" ");
            s.append(MAGENTA);
            push_padded(&mut s, b.as_str(), 10);
            s.append(RESET);
            s.append(" ");
            s.append(GREEN);
            push_padded(&mut s, sv.as_str(), 8);
            s.append(RESET);
            s.append(" ");
            s.append(DIM);
            s.append(last.as_str());
            s.append(RESET);
            r.push(s);
        },
        Line::EmptyState(m, h) => {
            r.push(String::new());
            let mut s = "  ".to_owned();
            s.append(DIM);
            s.append("  ");
            s.append(m.as_str());
            s.append(RESET);
            r.push(s);
            r.push(String::new());
            let mut t = "  ".to_owned();
            t.append(GRAY);
            t.append("  ");
            t.append(h.as_str());
            t.append(RESET);
            r.push(t);
            r.push(String::new());
        },
    }
    assert(string_views(r@) =~= rendered(l@));
    r
}

} // verus!

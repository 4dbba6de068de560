//! The static text of an enum variant, written in one of three styles:
//! as the name stands, in title case (`LighthouseOld` reads `Lighthouse Old`)
//! or in snake case (`lighthouse_old`).
use crate::text::chars_of;
use vstd::prelude::*;

verus! {

/// How a variant's name is written.
#[derive(Clone, Copy, Debug, PartialEq, Eq, Structural)]
pub enum Style {
    SameAsName,
    Title,
    Snake,
}

pub open spec fn is_ascii_upper(c: char) -> bool {
    'A' <= c && c <= 'Z'
}

pub open spec fn ascii_lower(c: char) -> char {
    if is_ascii_upper(c) {
        ((c as u32) + 32) as char
    } else {
        c
    }
}

/// `s` with `sep` before each uppercase ASCII letter that follows a
/// character that is not one, and with each character lowercased when
/// `lower` holds.
pub open spec fn styled(s: Seq<char>, sep: char, lower: bool) -> Seq<char>
    decreases s.len(),
{
    if s.len() == 0 {
        Seq::empty()
    } else {
        let prev = styled(s.drop_last(), sep, lower);
        let c = s.last();
        let split = s.len() > 1 && is_ascii_upper(c) && !is_ascii_upper(s[s.len() - 2]);
        let c2 = if lower {
            ascii_lower(c)
        } else {
            c
        };
        if split {
            prev.push(sep).push(c2)
        } else {
            prev.push(c2)
        }
    }
}

/// The text of a variant named `name` in `style`.
pub open spec fn variant_text(name: Seq<char>, style: Style) -> Seq<char> {
    match style {
        Style::SameAsName => name,
        Style::Title => styled(name, ' ', false),
        Style::Snake => styled(name, '_', true),
    }
}

/// Relies on `String::push`: appends one character.
#[verifier::external_body]
fn push_char(s: &mut String, c: char)
    ensures
        final(s)@ == old(s)@.push(c),
{
    s.push(c)
}

fn lower_char(c: char) -> (r: char)
    ensures
        r == ascii_lower(c),
{
    if 'A' <= c && c <= 'Z' {
        let b: u8 = c as u8;
        assert(b as u32 == c as u32);
        (b + 32) as char
    } else {
        c
    }
}

/// The text of a variant named `name` in `style`.
pub fn variant_repr(name: &str, style: Style) -> (r: String)
    ensures
        r@ == variant_text(name@, style),
{
    if style == Style::SameAsName {
        return name.to_owned();
    }
    let lower = style == Style::Snake;
    let sep = if lower { '_' } else { ' ' };
    let c = chars_of(name);
    let mut out = String::new();
    let mut up = true;
    let mut i: usize = 0;
    while i < c.len()
        invariant
            i <= c@.len(),
            c@ == name@,
            lower == (style == Style::Snake),
            sep == (if lower { '_' } else { ' ' }),
            out@ == styled(c@.take(i as int), sep, lower),
            up == (i == 0 || is_ascii_upper(c@[i - 1])),
        decreases c.len() - i,
    {
        let ch = c[i];
        let is_up = 'A' <= ch && ch <= 'Z';
        let ghost t = c@.take(i + 1);
        assert(t.drop_last() == c@.take(i as int));
        assert(t.last() == ch);
        if i > 0 {
            assert(t[t.len() - 2] == c@[i - 1]);
        }
        if is_up && !up {
            push_char(&mut out, sep);
        }
        if lower {
            push_char(&mut out, lower_char(ch));
        } else {
            push_char(&mut out, ch);
        }
        up = is_up;
        i = i + 1;
    }
    assert(c@.take(i as int) == c@);
    out
}

} // verus!

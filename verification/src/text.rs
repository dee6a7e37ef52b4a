//! Text helpers shared by the modules: decimal formatting, ASCII case
//! folding, comparison and joining of strings.

use vstd::prelude::*;

verus! {

/// The character of a decimal digit `d` (`0 <= d < 10`).
pub open spec fn digit_char(d: nat) -> char {
    ((d + 48) as u8) as char
}

/// Decimal representation of `n`, without sign or leading zeros.
pub open spec fn decimal(n: nat) -> Seq<char>
    decreases n,
{
    if n < 10 {
        seq![digit_char(n)]
    } else {
        decimal(n / 10).push(digit_char(n % 10))
    }
}

/// Appends one character to a string.
///
/// Trusted: wraps `String::push`, whose documentation says it appends the
/// given `char` to the end of the string.
#[verifier::external_body]
pub(crate) fn push_char(s: &mut String, c: char)
    ensures
        final(s)@ == old(s)@.push(c),
{
    s.push(c);
}

/// Formats `n` in decimal, as `u64::to_string` does.
pub fn decimal_string(n: u64) -> (res: String)
    ensures
        res@ == decimal(n as nat),
{
    let mut digits: Vec<char> = Vec::new();
    let mut rest: u64 = n;
    // `digits` holds the digits of `n` below those of `rest`, least significant first
    while rest >= 10
        invariant
            decimal(n as nat) == decimal(rest as nat) + digits@.reverse(),
        decreases rest,
    {
        let d = rest % 10;
        let c = ((d + 48) as u8) as char;
        proof {
            assert(decimal(rest as nat) == decimal((rest / 10) as nat).push(c));
            assert(digits@.push(c).reverse() =~= seq![c] + digits@.reverse());
        }
        digits.push(c);
        rest = rest / 10;
    }
    let mut res = String::new();
    push_char(&mut res, ((rest + 48) as u8) as char);
    assert(res@ =~= decimal(rest as nat));
    assert(digits@.take(digits.len() as int) =~= digits@);
    let mut i = digits.len();
    while i > 0
        invariant
            i <= digits.len(),
            decimal(n as nat) == res@ + digits@.take(i as int).reverse(),
        decreases i,
    {
        i = i - 1;
        let c = digits[i];
        let ghost before = res@;
        proof {
            assert(digits@.take(i + 1).reverse() =~= seq![c] + digits@.take(i as int).reverse());
        }
        push_char(&mut res, c);
        assert(before + (seq![c] + digits@.take(i as int).reverse()) =~= res@ + digits@.take(
            i as int,
        ).reverse());
    }
    res
}

/// ASCII lower-casing of one character; other characters are kept.
pub open spec fn ascii_lower(c: char) -> char {
    if 'A' <= c && c <= 'Z' {
        ((c as u32 + 32) as u8) as char
    } else {
        c
    }
}

/// ASCII lower-casing of a whole text, as `str::to_ascii_lowercase` does.
pub open spec fn ascii_lowercase(s: Seq<char>) -> Seq<char> {
    s.map_values(|c: char| ascii_lower(c))
}

fn lower_char(c: char) -> (res: char)
    ensures
        res == ascii_lower(c),
{
    if 'A' <= c && c <= 'Z' {
        ((c as u8) + 32) as char
    } else {
        c
    }
}

/// Whether `text`, lower-cased in ASCII, equals `target`.
pub fn lowercase_equals(text: &str, target: &str) -> (res: bool)
    ensures
        res == (ascii_lowercase(text@) == target@),
{
    let n = text.unicode_len();
    if n != target.unicode_len() {
        proof {
            assert(ascii_lowercase(text@).len() != target@.len());
        }
        return false;
    }
    let mut i: usize = 0;
    while i < n
        invariant
            n == text@.len(),
            n == target@.len(),
            i <= n,
            forall|j: int| 0 <= j < i ==> ascii_lower(#[trigger] text@[j]) == target@[j],
        decreases n - i,
    {
        if lower_char(text.get_char(i)) != target.get_char(i) {
            proof {
                assert(ascii_lowercase(text@)[i as int] != target@[i as int]);
            }
            return false;
        }
        i = i + 1;
    }
    proof {
        assert(ascii_lowercase(text@) =~= target@);
    }
    true
}

/// Whether two texts hold the same characters.
pub fn same_text(a: &str, b: &str) -> (res: bool)
    ensures
        res == (a@ == b@),
{
    let n = a.unicode_len();
    if n != b.unicode_len() {
        return false;
    }
    let mut i: usize = 0;
    while i < n
        invariant
            n == a@.len(),
            n == b@.len(),
            i <= n,
            forall|j: int| 0 <= j < i ==> a@[j] == b@[j],
        decreases n - i,
    {
        if a.get_char(i) != b.get_char(i) {
            return false;
        }
        i = i + 1;
    }
    proof {
        assert(a@ =~= b@);
    }
    true
}

/// The texts of `parts` joined with `sep` between neighbours.
pub open spec fn joined(parts: Seq<Seq<char>>, sep: Seq<char>) -> Seq<char>
    decreases parts.len(),
{
    if parts.len() == 0 {
        Seq::empty()
    } else if parts.len() == 1 {
        parts[0]
    } else {
        joined(parts.drop_last(), sep) + sep + parts.last()
    }
}

/// The views of a sequence of strings.
pub open spec fn texts(v: Seq<String>) -> Seq<Seq<char>> {
    v.map_values(|s: String| s@)
}

/// Joins `parts` with `sep`, as `[String]::join` does.
pub fn join(parts: &Vec<String>, sep: &str) -> (res: String)
    ensures
        res@ == joined(texts(parts@), sep@),
{
    let mut res = String::new();
    let mut i: usize = 0;
    while i < parts.len()
        invariant
            i <= parts.len(),
            res@ == joined(texts(parts@).take(i as int), sep@),
        decreases parts.len() - i,
    {
        let ghost before = res@;
        if i > 0 {
            res.append(sep);
        }
        res.append(parts[i].as_str());
        proof {
            let t = texts(parts@);
            assert(t.take(i + 1).drop_last() =~= t.take(i as int));
            if i == 0 {
                assert(before =~= Seq::<char>::empty());
                assert(res@ =~= t.take(1)[0]);
            }
        }
        i = i + 1;
    }
    proof {
        assert(texts(parts@).take(parts.len() as int) =~= texts(parts@));
    }
    res
}

} // verus!

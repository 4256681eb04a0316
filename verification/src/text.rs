//! Small text operations.
use vstd::prelude::*;
use vstd::string::*;

verus! {

/// Whether a text is the given one.
pub fn text_is(text: &String, other: &str) -> (r: bool)
    ensures
        r == (text@ == other@),
{
    *text == other.to_owned()
}

/// Two texts, one behind the other.
pub fn joined(a: &str, b: &str) -> (r: String)
    ensures
        r@ == a@ + b@,
{
    let mut out = a.to_owned();
    out.append(b);
    out
}

/// Whether `text` begins with `prefix`.
pub open spec fn begins_with(text: Seq<char>, prefix: Seq<char>) -> bool {
    prefix.len() <= text.len() && text.subrange(0, prefix.len() as int) == prefix
}

/// Tests whether `text` begins with `prefix`.
pub fn starts_with(text: &str, prefix: &str) -> (r: bool)
    ensures
        r == begins_with(text@, prefix@),
{
    let n = prefix.unicode_len();
    if text.unicode_len() < n {
        return false;
    }
    let head = text.substring_char(0, n);
    head.to_owned() == prefix.to_owned()
}

/// Whether `a` comes before `b` in the order of their characters.
pub open spec fn precedes(a: Seq<char>, b: Seq<char>) -> bool
    decreases a.len(),
{
    if b.len() == 0 {
        false
    } else if a.len() == 0 {
        true
    } else if a[0] != b[0] {
        (a[0] as u32) < (b[0] as u32)
    } else {
        precedes(a.skip(1), b.skip(1))
    }
}

/// No text comes before itself.
pub proof fn precedes_not_itself(a: Seq<char>)
    ensures
        !precedes(a, a),
    decreases a.len(),
{
    if a.len() > 0 {
        precedes_not_itself(a.skip(1));
    }
}

/// What comes before a text comes before what that text precedes.
pub proof fn precedes_chains(a: Seq<char>, b: Seq<char>, c: Seq<char>)
    requires
        precedes(a, b),
        precedes(b, c),
    ensures
        precedes(a, c),
    decreases a.len(),
{
    if a.len() > 0 && a[0] == b[0] && b[0] == c[0] {
        precedes_chains(a.skip(1), b.skip(1), c.skip(1));
    }
}

/// Tests whether `a` comes before `b`.
pub fn text_precedes(a: &str, b: &str) -> (r: bool)
    ensures
        r == precedes(a@, b@),
{
    let n = a.unicode_len();
    let m = b.unicode_len();
    let mut i: usize = 0;
    assert(a@.skip(0) =~= a@ && b@.skip(0) =~= b@);
    while i < n && i < m
        invariant
            n == a@.len(),
            m == b@.len(),
            i <= n,
            i <= m,
            precedes(a@.skip(i as int), b@.skip(i as int)) == precedes(a@, b@),
        decreases n - i,
    {
        let x = a.get_char(i);
        let y = b.get_char(i);
        if x != y {
            return (x as u32) < (y as u32);
        }
        assert(a@.skip(i as int).skip(1) =~= a@.skip(i + 1));
        assert(b@.skip(i as int).skip(1) =~= b@.skip(i + 1));
        i = i + 1;
    }
    i < m
}

/// The decimal numeral of a number.
pub open spec fn numeral(n: nat) -> Seq<char>
    decreases n,
{
    if n < 10 {
        seq![digit(n as int)]
    } else {
        numeral(n / 10).push(digit(n as int % 10))
    }
}

/// The character of a decimal digit.
pub open spec fn digit(d: int) -> char {
    if d == 0 {
        '0'
    } else if d == 1 {
        '1'
    } else if d == 2 {
        '2'
    } else if d == 3 {
        '3'
    } else if d == 4 {
        '4'
    } else if d == 5 {
        '5'
    } else if d == 6 {
        '6'
    } else if d == 7 {
        '7'
    } else if d == 8 {
        '8'
    } else {
        '9'
    }
}

/// The text of one decimal digit.
fn digit_text(d: usize) -> (r: &'static str)
    requires
        d < 10,
    ensures
        r@ == seq![digit(d as int)],
{
    proof {
        reveal_strlit("0");
        reveal_strlit("1");
        reveal_strlit("2");
        reveal_strlit("3");
        reveal_strlit("4");
        reveal_strlit("5");
        reveal_strlit("6");
        reveal_strlit("7");
        reveal_strlit("8");
        reveal_strlit("9");
    }
    let r = if d == 0 {
        "0"
    } else if d == 1 {
        "1"
    } else if d == 2 {
        "2"
    } else if d == 3 {
        "3"
    } else if d == 4 {
        "4"
    } else if d == 5 {
        "5"
    } else if d == 6 {
        "6"
    } else if d == 7 {
        "7"
    } else if d == 8 {
        "8"
    } else {
        "9"
    };
    assert(r@ =~= seq![digit(d as int)]);
    r
}

/// Writes a number in decimal.
pub fn decimal_text(n: usize) -> (r: String)
    ensures
        r@ == numeral(n as nat),
{
    wide_decimal_text(n as u128)
}

/// The first `n` numbers of a list, with commas between them.
pub open spec fn listed(list: Seq<usize>, n: nat) -> Seq<char>
    decreases n,
{
    if n == 0 {
        Seq::empty()
    } else if n == 1 {
        numeral(list[0] as nat)
    } else {
        listed(list, (n - 1) as nat) + ", "@ + numeral(list[n - 1] as nat)
    }
}

/// A list of numbers in brackets.
pub open spec fn bracketed(list: Seq<usize>) -> Seq<char> {
    "["@ + listed(list, list.len()) + "]"@
}

/// Writes a list of numbers in brackets.
pub fn list_text(list: &Vec<usize>) -> (r: String)
    ensures
        r@ == bracketed(list@),
{
    let mut out = "[".to_owned();
    for i in 0..list.len()
        invariant
            out@ == "["@ + listed(list@, i as nat),
    {
        if i > 0 {
            out.append(", ");
        }
        out.append(decimal_text(list[i]).as_str());
        assert(out@ =~= "["@ + listed(list@, (i + 1) as nat));
    }
    out.append("]");
    out
}

/// Writes a wide number in decimal.
pub fn wide_decimal_text(n: u128) -> (r: String)
    ensures
        r@ == numeral(n as nat),
    decreases n,
{
    if n < 10 {
        digit_text(n as usize).to_owned()
    } else {
        let mut out = wide_decimal_text(n / 10);
        out.append(digit_text((n % 10) as usize));
        assert(out@ =~= numeral(n as nat));
        out
    }
}

/// What stands for a character in markup.
pub open spec fn markup(c: char) -> Seq<char> {
    if c == '&' {
        "&amp;"@
    } else if c == '<' {
        "&lt;"@
    } else if c == '>' {
        "&gt;"@
    } else {
        seq![c]
    }
}

/// The first `n` characters of a text, as markup.
pub open spec fn markup_of(text: Seq<char>, n: nat) -> Seq<char>
    decreases n,
{
    if n == 0 {
        Seq::empty()
    } else {
        markup_of(text, (n - 1) as nat) + markup(text[n - 1])
    }
}

/// Writes a text as markup: the three reserved characters are replaced.
pub fn escaped(text: &str) -> (r: String)
    ensures
        r@ == markup_of(text@, text@.len()),
{
    let n = text.unicode_len();
    let mut out = String::new();
    proof {
        reveal_strlit("");
        assert(out@ =~= Seq::empty());
    }
    for i in 0..n
        invariant
            n == text@.len(),
            out@ == markup_of(text@, i as nat),
    {
        let c = text.get_char(i);
        if c == '&' {
            out.append("&amp;");
        } else if c == '<' {
            out.append("&lt;");
        } else if c == '>' {
            out.append("&gt;");
        } else {
            let one = text.substring_char(i, i + 1);
            assert(one@ =~= seq![c]);
            out.append(one);
        }
    }
    out
}

} // verus!

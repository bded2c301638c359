use vstd::prelude::*;

verus! {

/// A single key/value attribute of a text variant (for example `style = short`).
pub struct VariantAttribute {
    pub key: String,
    pub value: String,
}

/// One rendering of a localized text.
pub struct TextVariant {
    pub attributes: Vec<VariantAttribute>,
    pub value: String,
}

/// A localized text: a list of alternative variants.
pub type Text = Vec<TextVariant>;

/// The decimal digit of `d`, for `d < 10`.
pub open spec fn digit_char(d: nat) -> char {
    if d == 0 { '0' }
    else if d == 1 { '1' }
    else if d == 2 { '2' }
    else if d == 3 { '3' }
    else if d == 4 { '4' }
    else if d == 5 { '5' }
    else if d == 6 { '6' }
    else if d == 7 { '7' }
    else if d == 8 { '8' }
    else { '9' }
}

/// The decimal representation of `n`, without leading zeros.
pub open spec fn decimal(n: nat) -> Seq<char>
    decreases n,
{
    if n < 10 {
        seq![digit_char(n)]
    } else {
        decimal(n / 10).push(digit_char(n % 10))
    }
}

/// A text made of one variant, with no attributes, whose value is `s`.
pub open spec fn is_plain_text(t: Text, s: Seq<char>) -> bool {
    &&& t@.len() == 1
    &&& t@[0].attributes@.len() == 0
    &&& t@[0].value@ == s
}

/// A text with a long variant (no attributes) and a short variant (`style = short`).
pub open spec fn is_long_short_text(t: Text, long: Seq<char>, short: Seq<char>) -> bool {
    &&& t@.len() == 2
    &&& t@[0].attributes@.len() == 0
    &&& t@[0].value@ == long
    &&& t@[1].attributes@.len() == 1
    &&& t@[1].attributes@[0].key@ == "style"@
    &&& t@[1].attributes@[0].value@ == "short"@
    &&& t@[1].value@ == short
}

fn push_digit(s: &mut String, d: u32)
    requires
        d < 10,
    ensures
        final(s)@ == old(s)@.push(digit_char(d as nat)),
{
    proof {
        reveal_strlit("0");
        reveal_strlit("1");
        reveal_strlit("2");
        reveal_strlit("3");
        reveal_strlit("4");
        reveal_strlit("5");
        reveal_strlit("6");
        reveal_strlit("7");
        reveal_strlit("8");
        reveal_strlit("9");
    }
    let t: &str = if d == 0 { "0" }
        else if d == 1 { "1" }
        else if d == 2 { "2" }
        else if d == 3 { "3" }
        else if d == 4 { "4" }
        else if d == 5 { "5" }
        else if d == 6 { "6" }
        else if d == 7 { "7" }
        else if d == 8 { "8" }
        else { "9" };
    s.append(t);
    assert(final(s)@ =~= old(s)@.push(digit_char(d as nat)));
}

/// Appends the decimal representation of `n` to `s`.
pub fn push_decimal(s: &mut String, n: u32)
    ensures
        final(s)@ == old(s)@ + decimal(n as nat),
    decreases n,
{
    if n < 10 {
        push_digit(s, n);
        assert(final(s)@ =~= old(s)@ + decimal(n as nat));
    } else {
        push_decimal(s, n / 10);
        push_digit(s, n % 10);
        assert(final(s)@ =~= old(s)@ + decimal(n as nat));
    }
}

/// Builds `prefix`, then the decimal form of `n`, then `suffix`.
pub fn numbered(prefix: &str, n: u32, suffix: &str) -> (r: String)
    ensures
        r@ == prefix@ + decimal(n as nat) + suffix@,
{
    let mut s = String::from_str(prefix);
    push_decimal(&mut s, n);
    s.append(suffix);
    s
}


/// A text with a single plain variant.
pub fn plain_text(s: &str) -> (r: Text)
    ensures
        is_plain_text(r, s@),
{
    vec![TextVariant { attributes: Vec::new(), value: String::from_str(s) }]
}

/// A text with a long variant and a short (`style = short`) variant.
pub fn long_short_text(long: String, short: String) -> (r: Text)
    ensures
        is_long_short_text(r, long@, short@),
{
    let attr = VariantAttribute { key: String::from_str("style"), value: String::from_str("short") };
    proof {
        reveal_strlit("style");
        reveal_strlit("short");
    }
    vec![
        TextVariant { attributes: Vec::new(), value: long },
        TextVariant { attributes: vec![attr], value: short },
    ]
}

} // verus!

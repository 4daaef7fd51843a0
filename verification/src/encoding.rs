use vstd::prelude::*;

verus! {

/// The `application/x-www-form-urlencoded` form of a text.
pub uninterp spec fn form_encoded(text: Seq<char>) -> Seq<char>;

/// The standard base64 form, with padding, of a text's UTF-8 bytes.
pub uninterp spec fn base64_text(text: Seq<char>) -> Seq<char>;

/// A text without the white space at its two ends.
pub uninterp spec fn trimmed_text(text: Seq<char>) -> Seq<char>;

/// A query string with one more pair: `&` where pairs came before, then
/// the encoded name, `=` and the encoded value.
pub open spec fn with_pair(target: Seq<char>, name: Seq<char>, value: Seq<char>) -> Seq<char> {
    (if target.len() > 0 {
        target + seq!['&']
    } else {
        target
    }) + form_encoded(name) + seq!['='] + form_encoded(value)
}

/// `form_urlencoded::Serializer`: a serializer over `target` with one
/// call of `append_pair`, finished. The pair follows what `target` held,
/// after an `&` unless `target` was empty; name and value are each
/// byte-serialized as the crate's `byte_serialize` does.
#[verifier::external_body]
pub(crate) fn append_pair(target: String, name: &str, value: &str) -> (r: String)
    ensures
        r@ == (if target@.len() > 0 {
            target@ + seq!['&']
        } else {
            target@
        }) + form_encoded(name@) + seq!['='] + form_encoded(value@),
{
    form_urlencoded::Serializer::new(target).append_pair(name, value).finish()
}

/// `base64::encode_config` with the `STANDARD` configuration, on the
/// bytes of `input`.
#[verifier::external_body]
pub(crate) fn base64_standard(input: &str) -> (r: String)
    ensures
        r@ == base64_text(input@),
{
    base64::encode_config(input, base64::STANDARD)
}

/// `str::trim`: the slice without leading and trailing white space.
#[verifier::external_body]
pub(crate) fn trimmed(text: &str) -> (r: &str)
    ensures
        r@ == trimmed_text(text@),
{
    text.trim()
}

/// The character of a decimal digit.
pub open spec fn digit_char(d: int) -> char {
    if d == 0 {
        '0'
    } else if d == 1 {
        '1'
    } else if d == 2 {
        '2'
    } else if d == 3 {
        '3'
    } else if d == 4 {
        '4'
    } else if d == 5 {
        '5'
    } else if d == 6 {
        '6'
    } else if d == 7 {
        '7'
    } else if d == 8 {
        '8'
    } else {
        '9'
    }
}

/// The decimal digits of a natural number, without leading zeros.
pub open spec fn natural_text(n: nat) -> Seq<char>
    decreases n,
{
    if n < 10 {
        seq![digit_char(n as int)]
    } else {
        natural_text(n / 10).push(digit_char((n % 10) as int))
    }
}

/// The decimal form of an integer, with `-` before a negative one.
pub open spec fn decimal_text(n: int) -> Seq<char> {
    if n < 0 {
        seq!['-'] + natural_text((-n) as nat)
    } else {
        natural_text(n as nat)
    }
}

/// The text of one decimal digit.
fn digit_str(d: u32) -> (r: &'static str)
    requires
        d < 10,
    ensures
        r@ == seq![digit_char(d as int)],
{
    proof {
        reveal_strlit("0");
        reveal_strlit("1");
        reveal_strlit("2");
        reveal_strlit("3");
        reveal_strlit("4");
        reveal_strlit("5");
        reveal_strlit("6");
        reveal_strlit("7");
        reveal_strlit("8");
        reveal_strlit("9");
    }
    let r = if d == 0 {
        "0"
    } else if d == 1 {
        "1"
    } else if d == 2 {
        "2"
    } else if d == 3 {
        "3"
    } else if d == 4 {
        "4"
    } else if d == 5 {
        "5"
    } else if d == 6 {
        "6"
    } else if d == 7 {
        "7"
    } else if d == 8 {
        "8"
    } else {
        "9"
    };
    assert(r@ =~= seq![digit_char(d as int)]);
    r
}

/// The decimal digits of `n`.
fn natural(n: u32) -> (r: String)
    ensures
        r@ == natural_text(n as nat),
    decreases n,
{
    if n < 10 {
        digit_str(n).to_owned()
    } else {
        let mut s = natural(n / 10);
        s.append(digit_str(n % 10));
        assert(s@ =~= natural_text(n as nat));
        s
    }
}

/// The decimal form of `n`.
pub fn decimal(n: i32) -> (r: String)
    ensures
        r@ == decimal_text(n as int),
{
    if n < 0 {
        let magnitude: u32 = if n == i32::MIN {
            2147483648u32
        } else {
            (-n) as u32
        };
        proof {
            reveal_strlit("-");
        }
        let mut s = "-".to_owned();
        s.append(natural(magnitude).as_str());
        assert(s@ =~= decimal_text(n as int));
        s
    } else {
        natural(n as u32)
    }
}

/// Whether two string slices hold the same characters.
pub fn same_text(a: &str, b: &str) -> (r: bool)
    ensures
        r == (a@ == b@),
{
    let x = a.to_owned();
    let y = b.to_owned();
    x == y
}

/// `head` followed by `tail`.
pub fn joined(head: &str, tail: &str) -> (r: String)
    ensures
        r@ == head@ + tail@,
{
    let mut s = head.to_owned();
    s.append(tail);
    s
}

} // verus!

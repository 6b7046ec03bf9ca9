use vstd::prelude::*;
use vstd::utf8::*;

verus! {

/// The characters for which `char::is_whitespace` holds: those with the
/// Unicode `White_Space` property.
pub open spec fn is_whitespace(c: char) -> bool {
    let u = c as u32;
    ||| (0x09 <= u <= 0x0d)
    ||| u == 0x20
    ||| u == 0x85
    ||| u == 0xa0
    ||| u == 0x1680
    ||| (0x2000 <= u <= 0x200a)
    ||| u == 0x2028
    ||| u == 0x2029
    ||| u == 0x202f
    ||| u == 0x205f
    ||| u == 0x3000
}

/// `s` without the whitespace it starts with.
pub open spec fn trim_start(s: Seq<char>) -> Seq<char>
    decreases s.len(),
{
    if s.len() > 0 && is_whitespace(s[0]) {
        trim_start(s.drop_first())
    } else {
        s
    }
}

/// `s` without the whitespace it ends with.
pub open spec fn trim_end(s: Seq<char>) -> Seq<char>
    decreases s.len(),
{
    if s.len() > 0 && is_whitespace(s.last()) {
        trim_end(s.drop_last())
    } else {
        s
    }
}

/// `s` without leading and trailing whitespace, as `str::trim` gives it.
pub open spec fn trim(s: Seq<char>) -> Seq<char> {
    trim_end(trim_start(s))
}

/// Whether `c` is whitespace in the sense of `char::is_whitespace`.
pub fn char_is_whitespace(c: char) -> (b: bool)
    ensures
        b == is_whitespace(c),
{
    let u = c as u32;
    (0x09 <= u && u <= 0x0d) || u == 0x20 || u == 0x85 || u == 0xa0 || u == 0x1680 || (0x2000
        <= u && u <= 0x200a) || u == 0x2028 || u == 0x2029 || u == 0x202f || u == 0x205f || u
        == 0x3000
}

proof fn lemma_trim_start_skip(s: Seq<char>, i: int)
    requires
        0 <= i < s.len(),
        is_whitespace(s[i]),
    ensures
        trim_start(s.skip(i)) == trim_start(s.skip(i + 1)),
{
    assert(s.skip(i).drop_first() =~= s.skip(i + 1));
}

proof fn lemma_trim_end_take(s: Seq<char>, j: int)
    requires
        0 < j <= s.len(),
        is_whitespace(s[j - 1]),
    ensures
        trim_end(s.take(j)) == trim_end(s.take(j - 1)),
{
    assert(s.take(j).drop_last() =~= s.take(j - 1));
}

/// `s` with the whitespace at both ends taken off, as `str::trim` does.
pub fn trim_whitespace(s: &str) -> (t: String)
    ensures
        t@ == trim(s@),
{
    let n = s.unicode_len();
    let mut i: usize = 0;
    assert(s@.skip(0) =~= s@);
    while i < n && char_is_whitespace(s.get_char(i))
        invariant
            i <= n,
            n == s@.len(),
            trim_start(s@) == trim_start(s@.skip(i as int)),
        decreases n - i,
    {
        proof {
            lemma_trim_start_skip(s@, i as int);
        }
        i = i + 1;
    }
    let rest = s.substring_char(i, n);
    assert(rest@ =~= s@.skip(i as int));
    assert(trim_start(s@) == rest@) by {
        if i < n {
            assert(!is_whitespace(rest@[0]));
        } else {
            assert(rest@.len() == 0);
        }
    }
    let m = n - i;
    let mut j: usize = m;
    assert(rest@.take(m as int) =~= rest@);
    while j > 0 && char_is_whitespace(rest.get_char(j - 1))
        invariant
            j <= m,
            m == rest@.len(),
            trim_end(rest@) == trim_end(rest@.take(j as int)),
        decreases j,
    {
        proof {
            lemma_trim_end_take(rest@, j as int);
        }
        j = j - 1;
    }
    let core = rest.substring_char(0, j);
    assert(core@ =~= rest@.take(j as int));
    core.to_owned()
}

/// The decimal digit of `d`, for `d` below ten.
pub open spec fn digit_char(d: nat) -> char {
    if d == 0 { '0' }
    else if d == 1 { '1' }
    else if d == 2 { '2' }
    else if d == 3 { '3' }
    else if d == 4 { '4' }
    else if d == 5 { '5' }
    else if d == 6 { '6' }
    else if d == 7 { '7' }
    else if d == 8 { '8' }
    else { '9' }
}

/// The decimal notation of `n`, without sign or leading zeros, as
/// `to_string` writes an unsigned integer.
pub open spec fn decimal(n: nat) -> Seq<char>
    decreases n,
{
    if n < 10 {
        seq![digit_char(n)]
    } else {
        decimal(n / 10).push(digit_char(n % 10))
    }
}

fn digit_str(d: usize) -> (s: &'static str)
    requires
        d < 10,
    ensures
        s@ == seq![digit_char(d as nat)],
{
    if d == 0 {
        proof { reveal_strlit("0"); }
        "0"
    } else if d == 1 {
        proof { reveal_strlit("1"); }
        "1"
    } else if d == 2 {
        proof { reveal_strlit("2"); }
        "2"
    } else if d == 3 {
        proof { reveal_strlit("3"); }
        "3"
    } else if d == 4 {
        proof { reveal_strlit("4"); }
        "4"
    } else if d == 5 {
        proof { reveal_strlit("5"); }
        "5"
    } else if d == 6 {
        proof { reveal_strlit("6"); }
        "6"
    } else if d == 7 {
        proof { reveal_strlit("7"); }
        "7"
    } else if d == 8 {
        proof { reveal_strlit("8"); }
        "8"
    } else {
        proof { reveal_strlit("9"); }
        "9"
    }
}

/// The decimal notation of `n`.
pub fn decimal_string(n: usize) -> (s: String)
    ensures
        s@ == decimal(n as nat),
    decreases n,
{
    if n < 10 {
        digit_str(n).to_owned()
    } else {
        let mut s = decimal_string(n / 10);
        s.append(digit_str(n % 10));
        s
    }
}

/// Whether a byte may stand in a header value that reads as text: a visible
/// ASCII character, a space or a tab, as `HeaderValue::to_str` accepts.
pub open spec fn is_visible_ascii(b: u8) -> bool {
    (32 <= b && b < 127) || b == 9
}

/// The text that the bytes `b` spell, one ASCII character per byte.
pub open spec fn ascii_chars(b: Seq<u8>) -> Seq<char> {
    Seq::new(b.len(), |i: int| b[i] as char)
}

/// The ASCII letter `c` in lower case; any other character unchanged.
pub open spec fn ascii_lower(c: char) -> char {
    if 'A' <= c && c <= 'Z' {
        ((c as u32) + 32) as char
    } else {
        c
    }
}

/// Whether `a` and `b` are the same text.
pub fn same_text(a: &str, b: &str) -> (r: bool)
    ensures
        r == (a@ == b@),
{
    let n = a.unicode_len();
    if n != b.unicode_len() {
        return false;
    }
    let mut i: usize = 0;
    while i < n
        invariant
            i <= n,
            n == a@.len(),
            n == b@.len(),
            forall|k: int| 0 <= k < i ==> #[trigger] a@[k] == b@[k],
        decreases n - i,
    {
        if a.get_char(i) != b.get_char(i) {
            return false;
        }
        i = i + 1;
    }
    assert(a@ =~= b@);
    true
}

/// `n` copies of the character `c`.
pub open spec fn repeat_char(c: char, n: nat) -> Seq<char> {
    Seq::new(n, |i: int| c)
}

/// A string of `n` asterisks.
pub fn asterisks(n: usize) -> (s: String)
    ensures
        s@ == repeat_char('*', n as nat),
{
    let mut s = String::new();
    let mut i: usize = 0;
    while i < n
        invariant
            i <= n,
            s@ == repeat_char('*', i as nat),
        decreases n - i,
    {
        proof { reveal_strlit("*"); }
        s.append("*");
        i = i + 1;
        assert(s@ =~= repeat_char('*', i as nat));
    }
    s
}


/// `std::str::from_utf8`: the bytes read as text when they are valid UTF-8.
/// Claimed, as its documentation states: the result is `Some` exactly when the
/// bytes are valid UTF-8, and then the text's UTF-8 encoding is those bytes.
#[verifier::external_body]
fn utf8_text(bytes: &[u8]) -> (text: Option<&str>)
    ensures
        text is Some <==> valid_utf8(bytes@),
        text matches Some(t) ==> encode_utf8(t@) == bytes@,
{
    std::str::from_utf8(bytes).ok()
}

/// The text of a header value, when every byte is visible ASCII, a space or a
/// tab; the text has one character per byte.
pub open spec fn header_text(value: Seq<u8>) -> Option<Seq<char>> {
    if forall|i: int| 0 <= i < value.len() ==> is_visible_ascii(#[trigger] value[i]) {
        Some(ascii_chars(value))
    } else {
        None
    }
}

proof fn lemma_ascii_bytes_utf8(value: Seq<u8>)
    requires
        forall|i: int| 0 <= i < value.len() ==> #[trigger] value[i] < 128,
    ensures
        valid_utf8(value),
        decode_utf8(value) == ascii_chars(value),
{
    let chars = ascii_chars(value);
    assert forall|i: int| 0 <= i < chars.len() implies '\0' <= #[trigger] chars[i] <= '\u{7f}' by {
        let b = value[i];
        assert(chars[i] == b as char);
        assert((b as char) as u32 == b as u32);
    }
    assert(is_ascii_chars(chars));
    is_ascii_chars_encode_utf8(chars);
    assert forall|i: int| 0 <= i < chars.len() implies #[trigger] encode_utf8(chars)[i] == value[i] by {
        let b = value[i];
        assert(chars[i] as u8 == encode_utf8(chars)[i]);
        assert(((b as char) as u8) == b);
    }
    assert(encode_utf8(chars) =~= value);
    encode_utf8_valid_utf8(chars);
    encode_utf8_decode_utf8(chars);
}

/// A header value read as text, as `HeaderValue::to_str` reads it: only when
/// every byte is visible ASCII, a space or a tab.
pub fn header_value_text(value: &[u8]) -> (text: Option<String>)
    ensures
        match text {
            Some(t) => header_text(value@) == Some(t@),
            None => header_text(value@) is None,
        },
{
    let n = value.len();
    let mut i: usize = 0;
    while i < n
        invariant
            i <= n,
            n == value@.len(),
            forall|k: int| 0 <= k < i ==> is_visible_ascii(#[trigger] value@[k]),
        decreases n - i,
    {
        let b = value[i];
        if !((32 <= b && b < 127) || b == 9) {
            return None;
        }
        i = i + 1;
    }
    proof {
        lemma_ascii_bytes_utf8(value@);
    }
    match utf8_text(value) {
        Some(t) => {
            proof {
                encode_utf8_decode_utf8(t@);
            }
            Some(t.to_owned())
        },
        None => None,
    }
}

} // verus!

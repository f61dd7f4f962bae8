//! Character classes and string helpers that the rest of the crate builds on.

use vstd::prelude::*;

verus! {

/// Whether `c` is one of the 128 characters of ASCII.
pub open spec fn ascii(c: char) -> bool {
    c <= '\x7f'
}

/// Whether `c` is a letter of ASCII.
pub open spec fn ascii_letter(c: char) -> bool {
    ('a' <= c && c <= 'z') || ('A' <= c && c <= 'Z')
}

/// Whether `c` is the space or one of the five control characters from the
/// tabulator to the carriage return.
pub open spec fn ascii_blank(c: char) -> bool {
    c == ' ' || ('\t' <= c && c <= '\r')
}

/// Whether `c` is a decimal digit of ASCII.
pub open spec fn ascii_digit(c: char) -> bool {
    '0' <= c && c <= '9'
}

/// Whether `c` is a punctuation mark or a symbol of ASCII: a printable
/// character of ASCII that is no letter, no digit and not the space.
pub open spec fn ascii_punctuation(c: char) -> bool {
    ('!' <= c && c <= '/') || (':' <= c && c <= '@') || ('[' <= c && c <= '`') || ('{' <= c && c
        <= '~')
}

/// Whether a character beyond ASCII has Unicode's `Alphabetic` property, as
/// `char::is_alphabetic` reports it.
pub uninterp spec fn alphabetic_beyond_ascii(c: char) -> bool;

/// Whether a character beyond ASCII has Unicode's `White_Space` property, as
/// `char::is_whitespace` reports it.
pub uninterp spec fn whitespace_beyond_ascii(c: char) -> bool;

/// The lowercase form of a text that holds a character beyond ASCII, as
/// `str::to_lowercase` computes it.
pub uninterp spec fn lowercase_beyond_ascii(s: Seq<char>) -> Seq<char>;

/// Whether every character of `s` is one of ASCII.
pub open spec fn ascii_text(s: Seq<char>) -> bool {
    forall|i: int| 0 <= i < s.len() ==> ascii(#[trigger] s[i])
}

/// The small letter for a capital letter of ASCII, and every other character
/// as it is.
pub open spec fn ascii_lower(c: char) -> char {
    if 'A' <= c && c <= 'Z' {
        ((c as int) + 32) as char
    } else {
        c
    }
}

/// `s` with each capital letter of ASCII made small.
pub open spec fn ascii_lowered(s: Seq<char>) -> Seq<char> {
    s.map_values(|c: char| ascii_lower(c))
}

/// The lowercase form of a text: of a text of ASCII alone the same text with
/// its capital letters made small, of any other text what Unicode takes for
/// its lowercase form.
pub open spec fn lowercase(s: Seq<char>) -> Seq<char> {
    if ascii_text(s) {
        ascii_lowered(s)
    } else {
        lowercase_beyond_ascii(s)
    }
}

/// Whether `c` is a letter: within ASCII one of its 52 letters, beyond it
/// what Unicode takes for alphabetic.
pub open spec fn alphabetic(c: char) -> bool {
    if ascii(c) {
        ascii_letter(c)
    } else {
        alphabetic_beyond_ascii(c)
    }
}

/// Whether `c` is whitespace: within ASCII the space and the control
/// characters from the tabulator to the carriage return, beyond it what
/// Unicode takes for white space.
pub open spec fn whitespace(c: char) -> bool {
    if ascii(c) {
        ascii_blank(c)
    } else {
        whitespace_beyond_ascii(c)
    }
}

/// `char::is_alphabetic`: trusted to be a function of the character alone,
/// and to take exactly the letters `a` to `z` and `A` to `Z` among the
/// characters of ASCII, which are the ones that have Unicode's `Alphabetic`
/// property there. Nothing is claimed of which other characters it takes.
pub assume_specification[ char::is_alphabetic ](c: char) -> (r: bool)
    ensures
        r == if ascii(c) {
            ascii_letter(c)
        } else {
            alphabetic_beyond_ascii(c)
        },
;

/// `char::is_whitespace`: trusted to be a function of the character alone,
/// and to take exactly U+0009 to U+000D and U+0020 among the characters of
/// ASCII, which are the ones that have Unicode's `White_Space` property there.
/// Nothing is claimed of which other characters it takes.
pub assume_specification[ char::is_whitespace ](c: char) -> (r: bool)
    ensures
        r == if ascii(c) {
            ascii_blank(c)
        } else {
            whitespace_beyond_ascii(c)
        },
;

/// `str::to_lowercase`: trusted to be a function of the text alone, and to
/// turn a text of ASCII alone into the same text with `A` to `Z` replaced by
/// `a` to `z`, which is its lowercase form by Unicode's rules. Nothing is
/// claimed of what it makes of a text that holds any other character.
pub assume_specification[ str::to_lowercase ](s: &str) -> (r: String)
    ensures
        r@ == if ascii_text(s@) {
            ascii_lowered(s@)
        } else {
            lowercase_beyond_ascii(s@)
        },
;

/// Whether `a` and `b` are the same but for the case of their letters of
/// ASCII.
pub open spec fn alike_but_for_case(a: Seq<char>, b: Seq<char>) -> bool {
    &&& a.len() == b.len()
    &&& forall|i: int| 0 <= i < a.len() ==> ascii_lower(#[trigger] a[i]) == ascii_lower(b[i])
}

/// Two texts of ASCII alone have the same lowercase form exactly where they
/// are the same but for the case of their letters.
pub proof fn lemma_lowercase_of_ascii(a: Seq<char>, b: Seq<char>)
    requires
        ascii_text(a),
        ascii_text(b),
    ensures
        lowercase(a) == lowercase(b) <==> alike_but_for_case(a, b),
{
    if alike_but_for_case(a, b) {
        assert(ascii_lowered(a) =~= ascii_lowered(b));
    }
    if lowercase(a) == lowercase(b) {
        assert(ascii_lowered(a).len() == ascii_lowered(b).len());
        assert forall|i: int| 0 <= i < a.len() implies ascii_lower(#[trigger] a[i])
            == ascii_lower(b[i]) by {
            assert(ascii_lowered(a)[i] == ascii_lowered(b)[i]);
        }
    }
}

/// How many characters at the front of `s` are whitespace.
pub open spec fn leading_blank(s: Seq<char>) -> nat
    decreases s.len(),
{
    if s.len() > 0 && whitespace(s[0]) {
        1 + leading_blank(s.drop_first())
    } else {
        0
    }
}

/// How many characters at the back of `s` are whitespace.
pub open spec fn trailing_blank(s: Seq<char>) -> nat
    decreases s.len(),
{
    if s.len() > 0 && whitespace(s.last()) {
        1 + trailing_blank(s.drop_last())
    } else {
        0
    }
}

/// `s` without its leading and trailing whitespace.
pub open spec fn trimmed(s: Seq<char>) -> Seq<char> {
    if leading_blank(s) >= s.len() {
        Seq::empty()
    } else {
        s.subrange(leading_blank(s) as int, s.len() - trailing_blank(s))
    }
}

/// The leading whitespace of `s` is a run of whitespace that ends at the first
/// other character.
pub proof fn lemma_leading_blank(s: Seq<char>)
    ensures
        leading_blank(s) <= s.len(),
        forall|j: int| 0 <= j < leading_blank(s) ==> whitespace(#[trigger] s[j]),
        leading_blank(s) < s.len() ==> !whitespace(s[leading_blank(s) as int]),
    decreases s.len(),
{
    if s.len() > 0 && whitespace(s[0]) {
        let rest = s.drop_first();
        lemma_leading_blank(rest);
        assert forall|j: int| 0 <= j < leading_blank(s) implies whitespace(#[trigger] s[j]) by {
            if j > 0 {
                assert(s[j] == rest[j - 1]);
            }
        }
        if leading_blank(s) < s.len() {
            assert(s[leading_blank(s) as int] == rest[leading_blank(rest) as int]);
        }
    }
}

/// The trailing whitespace of `s` is a run of whitespace that starts behind
/// the last other character.
pub proof fn lemma_trailing_blank(s: Seq<char>)
    ensures
        trailing_blank(s) <= s.len(),
        forall|j: int| s.len() - trailing_blank(s) <= j < s.len() ==> whitespace(#[trigger] s[j]),
        trailing_blank(s) < s.len() ==> !whitespace(s[s.len() - trailing_blank(s) - 1]),
    decreases s.len(),
{
    if s.len() > 0 && whitespace(s.last()) {
        let rest = s.drop_last();
        lemma_trailing_blank(rest);
        assert forall|j: int| s.len() - trailing_blank(s) <= j < s.len() implies whitespace(
            #[trigger] s[j],
        ) by {
            if j < s.len() - 1 {
                assert(s[j] == rest[j]);
            }
        }
        if trailing_blank(s) < s.len() {
            assert(s[s.len() - trailing_blank(s) - 1] == rest[rest.len() - trailing_blank(rest)
                - 1]);
        }
    }
}

/// Something is left of a text after trimming exactly where it holds a
/// character that is not whitespace; what is left then starts and ends with
/// such a character.
pub proof fn lemma_trimmed(s: Seq<char>)
    ensures
        trimmed(s).len() > 0 <==> exists|i: int| 0 <= i < s.len() && !whitespace(s[i]),
        trimmed(s).len() > 0 ==> !whitespace(trimmed(s).first()) && !whitespace(
            trimmed(s).last(),
        ),
{
    lemma_leading_blank(s);
    lemma_trailing_blank(s);
    let front = leading_blank(s) as int;
    let back = trailing_blank(s) as int;
    if front < s.len() {
        assert(!whitespace(s[front]));
        if s.len() - back <= front {
            assert(whitespace(s[front]));
        }
        assert(trimmed(s).first() == s[front]);
        assert(trimmed(s).last() == s[s.len() - back - 1]);
    } else {
        assert forall|i: int| 0 <= i < s.len() implies whitespace(s[i]) by {}
    }
}

/// `String::push`: trusted to append the character and to change nothing
/// else.
pub assume_specification[ String::push ](s: &mut String, c: char)
    ensures
        final(s)@ == old(s)@.push(c),
;

/// The character that stands for the digit `d`.
pub open spec fn digit(d: nat) -> char {
    if d == 0 {
        '0'
    } else if d == 1 {
        '1'
    } else if d == 2 {
        '2'
    } else if d == 3 {
        '3'
    } else if d == 4 {
        '4'
    } else if d == 5 {
        '5'
    } else if d == 6 {
        '6'
    } else if d == 7 {
        '7'
    } else if d == 8 {
        '8'
    } else {
        '9'
    }
}

/// `n` in decimal, without leading zeros.
pub open spec fn decimal(n: nat) -> Seq<char>
    decreases n,
{
    if n < 10 {
        seq![digit(n)]
    } else {
        decimal(n / 10).push(digit(n % 10))
    }
}

fn digit_of(d: usize) -> (c: char)
    requires
        d < 10,
    ensures
        c == digit(d as nat),
{
    if d == 0 {
        '0'
    } else if d == 1 {
        '1'
    } else if d == 2 {
        '2'
    } else if d == 3 {
        '3'
    } else if d == 4 {
        '4'
    } else if d == 5 {
        '5'
    } else if d == 6 {
        '6'
    } else if d == 7 {
        '7'
    } else if d == 8 {
        '8'
    } else {
        '9'
    }
}

/// Appends `n` in decimal to `out`.
pub fn push_decimal(out: &mut String, n: usize)
    ensures
        final(out)@ == old(out)@ + decimal(n as nat),
    decreases n,
{
    if n >= 10 {
        push_decimal(out, n / 10);
    }
    out.push(digit_of(n % 10));
}

/// The characters of `s`, in order.
pub fn chars_of(s: &str) -> (out: Vec<char>)
    ensures
        out@ == s@,
{
    let mut out: Vec<char> = Vec::new();
    for c in it: s.chars()
        invariant
            it.seq() == s@,
            out@ == s@.take(it.index()),
    {
        proof {
            assert(s@.take(it.index() + 1) =~= s@.take(it.index()).push(c));
        }
        out.push(c);
    }
    proof {
        assert(s@.take(s@.len() as int) =~= s@);
    }
    out
}

/// `line` without the whitespace around it.
pub fn read_input(line: &str) -> (input: String)
    ensures
        input@ == trimmed(line@),
{
    let chars = chars_of(line);
    let mut start: usize = 0;
    while start < chars.len() && chars[start].is_whitespace()
        invariant
            0 <= start <= chars.len(),
            forall|j: int| 0 <= j < start ==> whitespace(#[trigger] chars@[j]),
        decreases chars.len() - start,
    {
        start += 1;
    }
    let mut end: usize = chars.len();
    while end > start && chars[end - 1].is_whitespace()
        invariant
            start <= end <= chars.len(),
            forall|j: int| end <= j < chars.len() ==> whitespace(#[trigger] chars@[j]),
        decreases end,
    {
        end -= 1;
    }
    proof {
        lemma_leading_blank(chars@);
        lemma_trailing_blank(chars@);
        assert(leading_blank(chars@) == start);
        if start < chars.len() {
            assert(trailing_blank(chars@) == chars.len() - end);
        }
    }
    let mut input = String::new();
    let mut i: usize = start;
    while i < end
        invariant
            start <= i <= end,
            end <= chars.len(),
            input@ == chars@.subrange(start as int, i as int),
        decreases end - i,
    {
        input.push(chars[i]);
        proof {
            assert(chars@.subrange(start as int, i + 1) =~= chars@.subrange(
                start as int,
                i as int,
            ).push(chars@[i as int]));
        }
        i += 1;
    }
    proof {
        assert(trimmed(chars@) =~= chars@.subrange(start as int, end as int));
    }
    input
}

} // verus!

//! Text helpers: the few `std` string operations the library relies on,
//! and verified routines built on top of them.
use vstd::prelude::*;

verus! {

// ---------------------------------------------------------------------
// Specifications
// ---------------------------------------------------------------------

/// The result of `str::to_lowercase` (full Unicode case mapping).
pub uninterp spec fn lowercase(s: Seq<char>) -> Seq<char>;

/// A character with the Unicode `White_Space` property, the set that
/// `char::is_whitespace` tests for.
pub open spec fn is_white_space(c: char) -> bool {
    let n = c as u32;
    ||| 0x09 <= n <= 0x0D
    ||| n == 0x20
    ||| n == 0x85
    ||| n == 0xA0
    ||| n == 0x1680
    ||| 0x2000 <= n <= 0x200A
    ||| n == 0x2028
    ||| n == 0x2029
    ||| n == 0x202F
    ||| n == 0x205F
    ||| n == 0x3000
}

/// `s` without its leading white space.
pub open spec fn trim_start_ws(s: Seq<char>) -> Seq<char>
    decreases s.len(),
{
    if s.len() > 0 && is_white_space(s[0]) {
        trim_start_ws(s.drop_first())
    } else {
        s
    }
}

/// `s` without its trailing white space.
pub open spec fn trim_end_ws(s: Seq<char>) -> Seq<char>
    decreases s.len(),
{
    if s.len() > 0 && is_white_space(s.last()) {
        trim_end_ws(s.drop_last())
    } else {
        s
    }
}

/// `s` without its leading and trailing white space, as `str::trim` returns it.
pub open spec fn trimmed(s: Seq<char>) -> Seq<char> {
    trim_end_ws(trim_start_ws(s))
}

/// `needle` occurs in `hay` as a contiguous run of characters.
pub open spec fn has_substring(hay: Seq<char>, needle: Seq<char>) -> bool {
    exists|i: int|
        0 <= i && i + needle.len() <= hay.len() && #[trigger] hay.subrange(i, i + needle.len())
            == needle
}

/// `p` is a prefix of `s`.
pub open spec fn has_prefix(s: Seq<char>, p: Seq<char>) -> bool {
    p.len() <= s.len() && s.take(p.len() as int) == p
}

/// The ASCII digit for `d` (`d < 10`).
pub open spec fn digit_char(d: nat) -> char {
    (48 + d) as char
}

/// Decimal notation of a natural number, as `Display` writes it for unsigned integers.
pub open spec fn decimal(n: nat) -> Seq<char>
    decreases n,
{
    if n < 10 {
        seq![digit_char(n)]
    } else {
        decimal(n / 10).push(digit_char(n % 10))
    }
}

/// The lowercase hexadecimal digit for `d` (`d < 16`).
pub open spec fn hex_digit(d: nat) -> char {
    if d < 10 {
        (48 + d) as char
    } else {
        (87 + d) as char
    }
}

/// Lowercase hexadecimal notation of a byte, without leading zeros (`{:x}`).
pub open spec fn hex_text(n: u8) -> Seq<char> {
    if n < 16 {
        seq![hex_digit(n as nat)]
    } else {
        seq![hex_digit((n / 16) as nat), hex_digit((n % 16) as nat)]
    }
}

/// Every character is an ASCII decimal digit, and there is at least one.
pub open spec fn is_digits(s: Seq<char>) -> bool {
    s.len() > 0 && forall|i: int| 0 <= i < s.len() ==> '0' <= #[trigger] s[i] <= '9'
}

/// The value of a run of decimal digits.
pub open spec fn digits_value(s: Seq<char>) -> nat
    decreases s.len(),
{
    if s.len() == 0 {
        0
    } else {
        digits_value(s.drop_last()) * 10 + ((s.last() as int) - 48) as nat
    }
}

/// What `FromStr` parses for an unsigned integer type whose largest value is `max`:
/// an optional `+`, then one or more ASCII digits, with a value of at most `max`.
pub open spec fn parse_unsigned(s: Seq<char>, max: nat) -> Option<nat> {
    let d = if s.len() > 0 && s[0] == '+' {
        s.drop_first()
    } else {
        s
    };
    if is_digits(d) && digits_value(d) <= max {
        Some(digits_value(d))
    } else {
        None
    }
}

/// `parts` joined with `sep` between neighbours.
pub open spec fn join(parts: Seq<Seq<char>>, sep: Seq<char>) -> Seq<char>
    decreases parts.len(),
{
    if parts.len() == 0 {
        Seq::empty()
    } else if parts.len() == 1 {
        parts[0]
    } else {
        join(parts.drop_last(), sep) + sep + parts.last()
    }
}

/// Characters that separate search terms.
pub open spec fn is_separator(c: char) -> bool {
    c == ',' || c == ' '
}

/// The runs of `s` between separators, empty runs included (as `split` gives them).
pub open spec fn pieces(s: Seq<char>) -> Seq<Seq<char>>
    decreases s.len(),
{
    if s.len() == 0 {
        seq![Seq::empty()]
    } else if is_separator(s.last()) {
        pieces(s.drop_last()).push(Seq::empty())
    } else {
        let p = pieces(s.drop_last());
        p.update(p.len() - 1, p.last().push(s.last()))
    }
}

/// The non-empty runs of `s` between commas and spaces, lowercased.
pub open spec fn search_terms_of(s: Seq<char>) -> Seq<Seq<char>> {
    pieces(s).filter(|t: Seq<char>| t.len() > 0).map_values(|t: Seq<char>| lowercase(t))
}

/// The views of a sequence of strings.
pub open spec fn views(v: Seq<String>) -> Seq<Seq<char>> {
    v.map_values(|s: String| s@)
}

// ---------------------------------------------------------------------
// Trusted wrappers around `std`
// ---------------------------------------------------------------------

/// Calls `String::push`: the string afterwards is the old one with `c` appended.
#[verifier::external_body]
pub(crate) fn push_char(s: &mut String, c: char)
    ensures
        final(s)@ == old(s)@.push(c),
{
    s.push(c);
}

/// Calls `String::pop`: removes the last character, if there is one.
#[verifier::external_body]
pub(crate) fn pop_char(s: &mut String)
    ensures
        old(s)@.len() > 0 ==> final(s)@ == old(s)@.drop_last(),
        old(s)@.len() == 0 ==> final(s)@ == old(s)@,
{
    s.pop();
}

/// Calls `str::to_lowercase`; the result is named `lowercase`.
#[verifier::external_body]
pub(crate) fn to_lower(s: &str) -> (r: String)
    ensures
        r@ == lowercase(s@),
{
    s.to_lowercase()
}

/// Calls `str::trim`: `s` without its leading and trailing characters for
/// which `char::is_whitespace` holds.
#[verifier::external_body]
pub(crate) fn trim(s: &str) -> (r: &str)
    ensures
        r@ == trimmed(s@),
{
    s.trim()
}

/// Calls `str::contains` with a `&str` pattern: whether `needle` occurs in `hay`.
#[verifier::external_body]
pub(crate) fn contains_text(hay: &str, needle: &str) -> (r: bool)
    ensures
        r == has_substring(hay@, needle@),
{
    hay.contains(needle)
}

/// Calls `str::parse::<usize>`, keeping the value on success.
#[verifier::external_body]
pub(crate) fn parse_usize(s: &str) -> (r: Option<usize>)
    ensures
        match parse_unsigned(s@, usize::MAX as nat) {
            Some(n) => r == Some(n as usize),
            None => r is None,
        },
{
    s.parse::<usize>().ok()
}

/// Calls `str::parse::<u64>`, keeping the value on success.
#[verifier::external_body]
pub(crate) fn parse_u64(s: &str) -> (r: Option<u64>)
    ensures
        match parse_unsigned(s@, u64::MAX as nat) {
            Some(n) => r == Some(n as u64),
            None => r is None,
        },
{
    s.parse::<u64>().ok()
}

// ---------------------------------------------------------------------
// Verified routines
// ---------------------------------------------------------------------

/// The characters of `s`, in order.
pub fn chars_of(s: &str) -> (r: Vec<char>)
    ensures
        r@ == s@,
{
    broadcast use vstd::string::group_string_axioms;

    let mut out: Vec<char> = Vec::new();
    for c in it: s.chars()
        invariant
            it.seq() == s@,
            out@ == it.seq().take(it.index() as int),
    {
        out.push(c);
    }
    out
}

/// A string holding exactly the characters of `cs`.
pub fn string_of(cs: &[char]) -> (r: String)
    ensures
        r@ == cs@,
{
    let mut out = String::new();
    let n = cs.len();
    for i in 0..n
        invariant
            n == cs@.len(),
            out@ == cs@.take(i as int),
    {
        push_char(&mut out, cs[i]);
        assert(cs@.take(i + 1) == cs@.take(i as int).push(cs@[i as int]));
    }
    assert(cs@.take(n as int) == cs@);
    out
}

/// A string holding the characters of `cs` from position `from` up to, not
/// including, position `to`.
pub fn string_of_range(cs: &[char], from: usize, to: usize) -> (r: String)
    requires
        from <= to <= cs@.len(),
    ensures
        r@ == cs@.subrange(from as int, to as int),
{
    let mut out = String::new();
    for i in from..to
        invariant
            from <= to <= cs@.len(),
            out@ == cs@.subrange(from as int, i as int),
    {
        push_char(&mut out, cs[i]);
        assert(cs@.subrange(from as int, i + 1) == cs@.subrange(from as int, i as int).push(
            cs@[i as int],
        ));
    }
    out
}

/// A new string holding the characters of `s`.
pub fn owned(s: &str) -> (r: String)
    ensures
        r@ == s@,
{
    String::from_str(s)
}

/// The decimal notation of `n` is a run of digits whose value is `n`.
pub proof fn lemma_decimal_parses(n: nat)
    ensures
        is_digits(decimal(n)),
        digits_value(decimal(n)) == n,
    decreases n,
{
    let d = decimal(n);
    let c = digit_char(n % 10);
    assert((c as int) == 48 + n % 10);
    assert(d.last() == c);
    if n >= 10 {
        lemma_decimal_parses(n / 10);
        assert(d.drop_last() == decimal(n / 10));
        assert(forall|i: int| 0 <= i < d.len() - 1 ==> d[i] == decimal(n / 10)[i]);
        assert(digits_value(d) == digits_value(d.drop_last()) * 10 + ((d.last() as int) - 48) as nat);
        assert(n == (n / 10) * 10 + n % 10);
    } else {
        assert(digits_value(d) == digits_value(d.drop_last()) * 10 + ((d.last() as int) - 48) as nat);
        assert(d.drop_last() =~= Seq::<char>::empty());
    }
}

/// A run of digits has no white space to trim.
pub proof fn lemma_digits_untrimmed(s: Seq<char>)
    requires
        is_digits(s),
    ensures
        trimmed(s) == s,
{
    assert('0' <= s[0] <= '9');
    assert('0' <= s.last() <= '9');
    assert(!is_white_space(s[0]));
    assert(!is_white_space(s.last()));
}

/// `n` spaces.
pub open spec fn spaces(n: nat) -> Seq<char> {
    Seq::new(n, |i: int| ' ')
}

/// `s` followed by spaces up to `width` characters, as `format!("{:<width$}", s)` writes it.
pub open spec fn padded_right(s: Seq<char>, width: nat) -> Seq<char> {
    if s.len() < width {
        s + spaces((width - s.len()) as nat)
    } else {
        s
    }
}

/// `s` preceded by spaces up to `width` characters, as `format!("{:>width$}", s)` writes it.
pub open spec fn padded_left(s: Seq<char>, width: nat) -> Seq<char> {
    if s.len() < width {
        spaces((width - s.len()) as nat) + s
    } else {
        s
    }
}

/// Appends `n` spaces to `out`.
fn push_spaces(out: &mut String, n: usize)
    ensures
        final(out)@ == old(out)@ + spaces(n as nat),
{
    let ghost start = out@;
    for i in 0..n
        invariant
            out@ == start + spaces(i as nat),
    {
        push_char(out, ' ');
        assert(start + spaces((i + 1) as nat) == (start + spaces(i as nat)).push(' '));
    }
}

/// `s` left aligned in a field of `width` characters.
pub fn pad_right(s: &str, width: usize) -> (r: String)
    ensures
        r@ == padded_right(s@, width as nat),
{
    let cs = chars_of(s);
    let mut out = owned(s);
    if cs.len() < width {
        push_spaces(&mut out, width - cs.len());
    }
    out
}

/// `s` right aligned in a field of `width` characters.
pub fn pad_left(s: &str, width: usize) -> (r: String)
    ensures
        r@ == padded_left(s@, width as nat),
{
    let cs = chars_of(s);
    let mut out = String::new();
    if cs.len() < width {
        push_spaces(&mut out, width - cs.len());
    }
    let ghost lead = out@;
    for i in 0..cs.len()
        invariant
            out@ == lead + cs@.take(i as int),
    {
        push_char(&mut out, cs[i]);
        assert(cs@.take(i + 1) == cs@.take(i as int).push(cs@[i as int]));
        assert(lead + cs@.take(i + 1) == (lead + cs@.take(i as int)).push(cs@[i as int]));
    }
    assert(cs@.take(cs@.len() as int) == cs@);
    out
}

/// Whether two character sequences are equal.
pub fn same_chars(a: &[char], b: &[char]) -> (r: bool)
    ensures
        r == (a@ == b@),
{
    if a.len() != b.len() {
        return false;
    }
    let n = a.len();
    for i in 0..n
        invariant
            n == a@.len(),
            n == b@.len(),
            forall|j: int| 0 <= j < i ==> a@[j] == b@[j],
    {
        if a[i] != b[i] {
            return false;
        }
    }
    assert(a@ =~= b@);
    true
}

/// Whether `s` begins with `p`.
pub fn starts_with(s: &[char], p: &[char]) -> (r: bool)
    ensures
        r == has_prefix(s@, p@),
{
    if p.len() > s.len() {
        return false;
    }
    let n = p.len();
    for i in 0..n
        invariant
            n == p@.len(),
            n <= s@.len(),
            forall|j: int| 0 <= j < i ==> s@[j] == p@[j],
    {
        if s[i] != p[i] {
            assert(s@.take(n as int)[i as int] != p@[i as int]);
            return false;
        }
    }
    assert(s@.take(n as int) =~= p@);
    true
}

/// Whether the text of `s` equals the text of `t`.
pub fn text_equals(s: &str, t: &str) -> (r: bool)
    ensures
        r == (s@ == t@),
{
    let a = chars_of(s);
    let b = chars_of(t);
    same_chars(a.as_slice(), b.as_slice())
}

/// Decimal notation of `n`, as `n.to_string()` gives it.
pub fn decimal_text(n: u64) -> (r: String)
    ensures
        r@ == decimal(n as nat),
{
    let mut m = n;
    let mut out: Vec<char> = Vec::new();
    while m >= 10
        invariant
            decimal(n as nat) == decimal(m as nat) + out@,
        decreases m,
    {
        let d = (m % 10) as u8;
        let c = (48u8 + d) as char;
        assert(c == digit_char((m % 10) as nat));
        let ghost before = out@;
        out.insert(0, c);
        assert(decimal(m as nat) == decimal((m / 10) as nat).push(c));
        assert(decimal((m / 10) as nat) + out@ =~= decimal((m / 10) as nat).push(c) + before);
        m = m / 10;
    }
    let c = (48u8 + (m as u8)) as char;
    let ghost before = out@;
    out.insert(0, c);
    assert(decimal(m as nat) == seq![c]);
    assert(out@ =~= seq![c] + before);
    string_of(out.as_slice())
}

fn hex_digit_char(d: u8) -> (r: char)
    requires
        d < 16,
    ensures
        r == hex_digit(d as nat),
{
    if d < 10 {
        (48u8 + d) as char
    } else {
        (87u8 + d) as char
    }
}

/// Lowercase hexadecimal notation of a byte, as `{:x}` writes it.
pub fn hex_text_u8(n: u8) -> (r: String)
    ensures
        r@ == hex_text(n),
{
    let mut out = String::new();
    if n >= 16 {
        push_char(&mut out, hex_digit_char(n / 16));
    }
    push_char(&mut out, hex_digit_char(n % 16));
    assert(out@ =~= hex_text(n));
    out
}

/// Decimal notation of a `usize`.
pub fn decimal_text_usize(n: usize) -> (r: String)
    ensures
        r@ == decimal(n as nat),
{
    decimal_text(n as u64)
}

/// The search terms in `text`: split at commas and spaces, empty runs
/// dropped, each lowercased.
pub fn search_terms(text: &str) -> (r: Vec<String>)
    ensures
        views(r@) == search_terms_of(text@),
{
    let cs = chars_of(text);
    let n = cs.len();
    let ghost nonempty = |t: Seq<char>| t.len() > 0;
    let ghost lower = |t: Seq<char>| lowercase(t);
    let mut out: Vec<String> = Vec::new();
    let mut start: usize = 0;
    let ghost mut done: Seq<Seq<char>> = seq![];
    assert(cs@.take(0) =~= Seq::<char>::empty());
    assert(cs@.subrange(0, 0) =~= Seq::<char>::empty());
    for i in 0..n
        invariant
            n == cs@.len(),
            start <= i,
            pieces(cs@.take(i as int)) == done.push(cs@.subrange(start as int, i as int)),
            views(out@) == done.filter(nonempty).map_values(lower),
            nonempty == (|t: Seq<char>| t.len() > 0),
            lower == (|t: Seq<char>| lowercase(t)),
    {
        proof {
            reveal_with_fuel(Seq::<_>::filter, 1);
        }
        let ghost prefix = cs@.take(i + 1);
        assert(prefix.drop_last() == cs@.take(i as int));
        assert(prefix.last() == cs@[i as int]);
        if cs[i] == ',' || cs[i] == ' ' {
            let ghost piece = cs@.subrange(start as int, i as int);
            let ghost before = views(out@);
            if start < i {
                let p = string_of_range(cs.as_slice(), start, i);
                let lp = to_lower(p.as_str());
                out.push(lp);
                assert(views(out@) =~= before.push(lower(piece)));
            }
            proof {
                done.lemma_filter_push(piece, nonempty);
                assert(done.filter(nonempty).push(piece).map_values(lower) =~= done.filter(
                    nonempty,
                ).map_values(lower).push(lower(piece)));
                assert(done.push(piece).filter(nonempty) == (if piece.len() > 0 {
                    done.filter(nonempty).push(piece)
                } else {
                    done.filter(nonempty)
                }));
                assert(views(out@) =~= done.push(piece).filter(nonempty).map_values(lower));
                done = done.push(piece);
                assert(cs@.subrange(i + 1, i + 1) =~= Seq::<char>::empty());
            }
            start = i + 1;
        } else {
            proof {
                let p = pieces(cs@.take(i as int));
                assert(p.len() - 1 == done.len());
                assert(cs@.subrange(start as int, i + 1) =~= cs@.subrange(start as int, i as int).push(
                    cs@[i as int],
                ));
                assert(pieces(prefix) =~= done.push(cs@.subrange(start as int, i + 1)));
            }
        }
    }
    proof {
        reveal_with_fuel(Seq::<_>::filter, 1);
    }
    let ghost last = cs@.subrange(start as int, n as int);
    let ghost before = views(out@);
    if start < n {
        let p = string_of_range(cs.as_slice(), start, n);
        let lp = to_lower(p.as_str());
        out.push(lp);
        assert(views(out@) =~= before.push(lower(last)));
    }
    proof {
        assert(done.filter(nonempty).push(last).map_values(lower) =~= done.filter(
            nonempty,
        ).map_values(lower).push(lower(last)));
        assert(cs@.take(n as int) == cs@);
        done.lemma_filter_push(last, nonempty);
        assert(done.push(last).filter(nonempty) == (if last.len() > 0 {
            done.filter(nonempty).push(last)
        } else {
            done.filter(nonempty)
        }));
        assert(views(out@) =~= done.push(last).filter(nonempty).map_values(lower));
    }
    out
}

/// `parts` joined with `sep`, as `[String]::join` gives it.
pub fn join_strings(parts: &Vec<String>, sep: &str) -> (r: String)
    ensures
        r@ == join(views(parts@), sep@),
{
    let mut out = String::new();
    let n = parts.len();
    for i in 0..n
        invariant
            n == parts@.len(),
            out@ == join(views(parts@).take(i as int), sep@),
    {
        let ghost prev = views(parts@).take(i as int);
        assert(views(parts@).take(i + 1).drop_last() == prev);
        if i > 0 {
            out.append(sep);
        }
        out.append(parts[i].as_str());
        assert(views(parts@).take(i + 1).last() == parts@[i as int]@);
    }
    assert(views(parts@).take(n as int) == views(parts@));
    out
}

} // verus!

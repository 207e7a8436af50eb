//! Text helpers shared by the page readers and the request builders:
//! Unicode trimming, decimal numerals, integer parsing and joining.
use vstd::prelude::*;

verus! {

/// Appends one character to a string (std's `String::push`).
#[verifier::external_body]
pub(crate) fn push_char(s: &mut String, c: char)
    ensures
        final(s)@ == old(s)@.push(c),
{
    s.push(c);
}

/// Appends the characters of `t` to `s`.
pub fn push_str(s: &mut String, t: &str)
    ensures
        final(s)@ == old(s)@ + t@,
{
    let cs = chars_of(t);
    let ghost start = s@;
    let mut i: usize = 0;
    while i < cs.len()
        invariant
            i <= cs@.len(),
            cs@ == t@,
            s@ == start + cs@.take(i as int),
        decreases cs.len() - i,
    {
        push_char(s, cs[i]);
        assert(cs@.take(i + 1) == cs@.take(i as int).push(cs@[i as int]));
        i += 1;
    }
    assert(cs@.take(i as int) == cs@);
}

/// The characters of `s`, in order.
pub fn chars_of(s: &str) -> (r: Vec<char>)
    ensures
        r@ == s@,
{
    let mut r: Vec<char> = Vec::new();
    for c in it: s.chars()
        invariant
            r@ == it.seq().take(it.index() as int),
    {
        r.push(c);
    }
    r
}

/// The string made of the characters `cs[from..to]`.
pub fn string_of_range(cs: &Vec<char>, from: usize, to: usize) -> (r: String)
    requires
        from <= to <= cs@.len(),
    ensures
        r@ == cs@.subrange(from as int, to as int),
{
    let mut r = String::new();
    let mut i: usize = from;
    while i < to
        invariant
            from <= i <= to <= cs@.len(),
            r@ == cs@.subrange(from as int, i as int),
        decreases to - i,
    {
        push_char(&mut r, cs[i]);
        assert(cs@.subrange(from as int, i + 1) == cs@.subrange(from as int, i as int).push(
            cs@[i as int],
        ));
        i += 1;
    }
    r
}

/// Whether two strings hold the same characters.
pub fn same_text(a: &str, b: &str) -> (r: bool)
    ensures
        r == (a@ == b@),
{
    let x = chars_of(a);
    let y = chars_of(b);
    if x.len() != y.len() {
        return false;
    }
    let mut i: usize = 0;
    while i < x.len()
        invariant
            x@ == a@,
            y@ == b@,
            x@.len() == y@.len(),
            i <= x@.len(),
            forall|k: int| 0 <= k < i ==> x@[k] == y@[k],
        decreases x.len() - i,
    {
        if x[i] != y[i] {
            return false;
        }
        i += 1;
    }
    assert(x@ =~= y@);
    true
}

/// Whether `s` begins with `prefix`.
pub fn starts_with(s: &str, prefix: &str) -> (r: bool)
    ensures
        r == (prefix@.len() <= s@.len() && s@.subrange(0, prefix@.len() as int) == prefix@),
{
    let x = chars_of(s);
    let p = chars_of(prefix);
    if p.len() > x.len() {
        return false;
    }
    let mut i: usize = 0;
    while i < p.len()
        invariant
            x@ == s@,
            p@ == prefix@,
            p@.len() <= x@.len(),
            i <= p@.len(),
            forall|k: int| 0 <= k < i ==> x@[k] == p@[k],
        decreases p.len() - i,
    {
        if x[i] != p[i] {
            assert(s@.subrange(0, prefix@.len() as int)[i as int] != prefix@[i as int]);
            return false;
        }
        i += 1;
    }
    assert(s@.subrange(0, prefix@.len() as int) =~= prefix@);
    true
}

// ---------------------------------------------------------------------------
// Unicode whitespace and trimming
// ---------------------------------------------------------------------------

/// The characters with the Unicode `White_Space` property, which is what
/// `char::is_whitespace` and `str::trim` go by.
pub open spec fn is_whitespace(c: char) -> bool {
    let u = c as u32;
    ||| 0x09 <= u <= 0x0D
    ||| u == 0x20
    ||| u == 0x85
    ||| u == 0xA0
    ||| u == 0x1680
    ||| 0x2000 <= u <= 0x200A
    ||| u == 0x2028
    ||| u == 0x2029
    ||| u == 0x202F
    ||| u == 0x205F
    ||| u == 0x3000
}

pub fn char_is_whitespace(c: char) -> (r: bool)
    ensures
        r == is_whitespace(c),
{
    let u = c as u32;
    (0x09 <= u && u <= 0x0D) || u == 0x20 || u == 0x85 || u == 0xA0 || u == 0x1680 || (0x2000
        <= u && u <= 0x200A) || u == 0x2028 || u == 0x2029 || u == 0x202F || u == 0x205F || u
        == 0x3000
}

/// `s` without its leading whitespace.
pub open spec fn trim_start(s: Seq<char>) -> Seq<char>
    decreases s.len(),
{
    if s.len() > 0 && is_whitespace(s[0]) {
        trim_start(s.drop_first())
    } else {
        s
    }
}

/// `s` without its trailing whitespace.
pub open spec fn trim_end(s: Seq<char>) -> Seq<char>
    decreases s.len(),
{
    if s.len() > 0 && is_whitespace(s.last()) {
        trim_end(s.drop_last())
    } else {
        s
    }
}

/// `s` without leading and trailing whitespace, as `str::trim` gives it.
pub open spec fn trim_spec(s: Seq<char>) -> Seq<char> {
    trim_end(trim_start(s))
}

/// The string `s` with leading and trailing Unicode whitespace removed.
pub fn trim(s: &str) -> (r: String)
    ensures
        r@ == trim_spec(s@),
{
    let v = chars_of(s);
    let n = v.len();
    let mut i: usize = 0;
    assert(v@.subrange(0, n as int) == v@);
    while i < n && char_is_whitespace(v[i])
        invariant
            n == v@.len(),
            v@ == s@,
            i <= n,
            trim_start(v@) == trim_start(v@.subrange(i as int, n as int)),
        decreases n - i,
    {
        assert(v@.subrange(i as int, n as int).drop_first() == v@.subrange(i + 1, n as int));
        i += 1;
    }
    assert(trim_start(v@) == v@.subrange(i as int, n as int));
    let mut j: usize = n;
    while j > i && char_is_whitespace(v[j - 1])
        invariant
            n == v@.len(),
            i <= j <= n,
            trim_end(v@.subrange(i as int, n as int)) == trim_end(v@.subrange(i as int, j as int)),
        decreases j,
    {
        assert(v@.subrange(i as int, j as int).drop_last() == v@.subrange(i as int, j - 1));
        j -= 1;
    }
    assert(trim_end(v@.subrange(i as int, j as int)) == v@.subrange(i as int, j as int));
    string_of_range(&v, i, j)
}

proof fn lemma_trim_start_first(s: Seq<char>)
    ensures
        trim_start(s).len() > 0 ==> !is_whitespace(trim_start(s)[0]),
        trim_start(trim_start(s)) == trim_start(s),
    decreases s.len(),
{
    if s.len() > 0 && is_whitespace(s[0]) {
        lemma_trim_start_first(s.drop_first());
    }
}

proof fn lemma_trim_end_last(s: Seq<char>)
    ensures
        trim_end(s).len() > 0 ==> !is_whitespace(trim_end(s).last()),
        trim_end(trim_end(s)) == trim_end(s),
        trim_end(s).len() <= s.len(),
        trim_end(s) == s.subrange(0, trim_end(s).len() as int),
    decreases s.len(),
{
    if s.len() > 0 && is_whitespace(s.last()) {
        lemma_trim_end_last(s.drop_last());
        assert(s.drop_last().subrange(0, trim_end(s).len() as int) == s.subrange(
            0,
            trim_end(s).len() as int,
        ));
    } else {
        assert(s.subrange(0, s.len() as int) == s);
    }
}

/// A trimmed text neither begins nor ends with whitespace.
pub proof fn lemma_trim_ends(s: Seq<char>)
    ensures
        trim_spec(s).len() > 0 ==> !is_whitespace(trim_spec(s)[0]),
        trim_spec(s).len() > 0 ==> !is_whitespace(trim_spec(s).last()),
{
    lemma_trim_start_first(s);
    let t = trim_start(s);
    lemma_trim_end_last(t);
    if trim_end(t).len() > 0 {
        assert(trim_end(t)[0] == t[0]);
    }
}

/// Trimming twice is trimming once.
pub proof fn law_trim_idempotent(s: Seq<char>)
    ensures
        trim_spec(trim_spec(s)) == trim_spec(s),
{
    lemma_trim_ends(s);
    let t = trim_spec(s);
    lemma_trim_end_last(trim_start(s));
    assert(trim_start(t) == t);
}

/// Every character of `s` is whitespace.
pub open spec fn all_whitespace(s: Seq<char>) -> bool {
    forall|i: int| 0 <= i < s.len() ==> is_whitespace(#[trigger] s[i])
}

proof fn lemma_trim_start_skips_whitespace(w: Seq<char>, x: Seq<char>)
    requires
        all_whitespace(w),
    ensures
        trim_start(w + x) == trim_start(x),
    decreases w.len(),
{
    if w.len() > 0 {
        assert((w + x)[0] == w[0]);
        assert((w + x).drop_first() == w.drop_first() + x);
        lemma_trim_start_skips_whitespace(w.drop_first(), x);
    } else {
        assert(w + x == x);
    }
}

proof fn lemma_trim_end_skips_whitespace(x: Seq<char>, w: Seq<char>)
    requires
        all_whitespace(w),
    ensures
        trim_end(x + w) == trim_end(x),
    decreases w.len(),
{
    if w.len() > 0 {
        assert((x + w).last() == w.last());
        assert((x + w).drop_last() == x + w.drop_last());
        lemma_trim_end_skips_whitespace(x, w.drop_last());
    } else {
        assert(x + w == x);
    }
}

/// Trimming a text followed by whitespace: when the text is all whitespace
/// nothing is left, else its trimmed start keeps the whitespace after it.
proof fn lemma_trim_start_append(t: Seq<char>, w: Seq<char>)
    requires
        all_whitespace(w),
    ensures
        all_whitespace(t) ==> trim_start(t + w) == Seq::<char>::empty() && trim_start(t)
            == Seq::<char>::empty(),
        !all_whitespace(t) ==> trim_start(t + w) == trim_start(t) + w,
    decreases t.len(),
{
    if t.len() == 0 {
        assert(t + w == w);
        assert(Seq::<char>::empty() + w == w);
        lemma_trim_start_skips_whitespace(w, Seq::empty());
        assert(w + Seq::<char>::empty() == w);
    } else {
        assert((t + w)[0] == t[0]);
        assert((t + w).drop_first() == t.drop_first() + w);
        if is_whitespace(t[0]) {
            lemma_trim_start_append(t.drop_first(), w);
            if all_whitespace(t) {
                assert(all_whitespace(t.drop_first())) by {
                    assert forall|i: int| 0 <= i < t.drop_first().len() implies is_whitespace(
                        #[trigger] t.drop_first()[i],
                    ) by {
                        assert(t.drop_first()[i] == t[i + 1]);
                    }
                }
            } else {
                assert(!all_whitespace(t.drop_first())) by {
                    let k = choose|k: int| 0 <= k < t.len() && !is_whitespace(#[trigger] t[k]);
                    assert(t.drop_first()[k - 1] == t[k]);
                }
            }
        } else {
            assert(!all_whitespace(t)) by {
                assert(!is_whitespace(t[0]));
            }
        }
    }
}

/// Whitespace around a text does not change its trim.
pub proof fn law_trim_ignores_surrounding_whitespace(w1: Seq<char>, t: Seq<char>, w2: Seq<char>)
    requires
        all_whitespace(w1),
        all_whitespace(w2),
    ensures
        trim_spec(w1 + t + w2) == trim_spec(t),
{
    assert(w1 + t + w2 == w1 + (t + w2));
    lemma_trim_start_skips_whitespace(w1, t + w2);
    lemma_trim_start_append(t, w2);
    if !all_whitespace(t) {
        lemma_trim_end_skips_whitespace(trim_start(t), w2);
    }
}

// ---------------------------------------------------------------------------
// Decimal numerals
// ---------------------------------------------------------------------------

/// The ASCII digit for `d` (for `d < 10`).
pub open spec fn digit_char(d: nat) -> char {
    (d + 48) as char
}

/// The decimal numeral of `n`, without sign or leading zeros.
pub open spec fn decimal(n: nat) -> Seq<char>
    decreases n,
{
    if n < 10 {
        seq![digit_char(n)]
    } else {
        decimal(n / 10).push(digit_char(n % 10))
    }
}

/// The numeral of a signed integer as `Display` writes it.
pub open spec fn signed_decimal(n: int) -> Seq<char> {
    if n < 0 {
        seq!['-'] + decimal((-n) as nat)
    } else {
        decimal(n as nat)
    }
}

fn digit(d: u64) -> (c: char)
    requires
        d < 10,
    ensures
        c == digit_char(d as nat),
{
    let b: u8 = (d as u8) + 48;
    b as char
}

/// Appends the decimal numeral of `n` to `s`.
pub fn push_decimal(s: &mut String, n: u64)
    ensures
        final(s)@ == old(s)@ + decimal(n as nat),
    decreases n,
{
    if n >= 10 {
        push_decimal(s, n / 10);
    }
    push_char(s, digit(n % 10));
}

/// The decimal numeral of `n`.
pub fn u64_to_decimal(n: u64) -> (r: String)
    ensures
        r@ == decimal(n as nat),
{
    let mut s = String::new();
    push_decimal(&mut s, n);
    s
}

/// The numeral of `n` as `i32`'s `Display` writes it.
pub fn i32_to_decimal(n: i32) -> (r: String)
    ensures
        r@ == signed_decimal(n as int),
{
    let mut s = String::new();
    if n < 0 {
        push_char(&mut s, '-');
        let m: i64 = n as i64;
        push_decimal(&mut s, (-m) as u64);
    } else {
        push_decimal(&mut s, n as u64);
    }
    s
}

// ---------------------------------------------------------------------------
// Parsing a signed 32-bit integer
// ---------------------------------------------------------------------------

pub open spec fn is_digit(c: char) -> bool {
    '0' <= c <= '9'
}

pub open spec fn all_digits(s: Seq<char>) -> bool {
    forall|i: int| 0 <= i < s.len() ==> is_digit(#[trigger] s[i])
}

/// The value of a string of decimal digits.
pub open spec fn digits_value(s: Seq<char>) -> nat
    decreases s.len(),
{
    if s.len() == 0 {
        0
    } else {
        digits_value(s.drop_last()) * 10 + ((s.last() as nat) - 48) as nat
    }
}

/// What `str::parse::<i32>` gives: an optional `+` or `-`, then one or more
/// ASCII digits whose value fits in an `i32`; anything else is an error.
pub open spec fn parse_i32_spec(s: Seq<char>) -> Option<i32> {
    let signed = s.len() > 0 && (s[0] == '-' || s[0] == '+');
    let body = if signed {
        s.drop_first()
    } else {
        s
    };
    let magnitude = digits_value(body) as int;
    let value = if s.len() > 0 && s[0] == '-' {
        -magnitude
    } else {
        magnitude
    };
    if body.len() > 0 && all_digits(body) && i32::MIN <= value <= i32::MAX {
        Some(value as i32)
    } else {
        None
    }
}

proof fn lemma_digits_value_grows(s: Seq<char>, k: int)
    requires
        0 <= k <= s.len(),
        all_digits(s),
    ensures
        digits_value(s.take(k)) <= digits_value(s),
    decreases s.len() - k,
{
    if k < s.len() {
        lemma_digits_value_grows(s, k + 1);
        assert(s.take(k + 1).drop_last() == s.take(k));
        assert(is_digit(s[k]));
    } else {
        assert(s.take(k) == s);
    }
}

/// Parses `s` as `str::parse::<i32>` does.
pub fn parse_i32(s: &str) -> (r: Option<i32>)
    ensures
        r == parse_i32_spec(s@),
{
    let v = chars_of(s);
    let n = v.len();
    let neg = n > 0 && v[0] == '-';
    let start: usize = if n > 0 && (v[0] == '-' || v[0] == '+') {
        1
    } else {
        0
    };
    let ghost body = v@.subrange(start as int, n as int);
    assert(body == if n > 0 && (v@[0] == '-' || v@[0] == '+') {
        v@.drop_first()
    } else {
        v@
    });
    if start == n {
        return None;
    }
    let limit: i64 = 2147483648;
    let mut acc: i64 = 0;
    let mut i: usize = start;
    assert(body.take(0) == Seq::<char>::empty());
    while i < n
        invariant
            v@ == s@,
            n == v@.len(),
            start <= i <= n,
            body == v@.subrange(start as int, n as int),
            body == (if s@.len() > 0 && (s@[0] == '-' || s@[0] == '+') {
                s@.drop_first()
            } else {
                s@
            }),
            acc as int == digits_value(body.take(i - start)),
            acc <= limit,
            all_digits(body.take(i - start)),
            limit == 2147483648,
        decreases n - i,
    {
        let c = v[i];
        let ghost prefix = body.take(i - start);
        let ghost longer = body.take(i + 1 - start);
        assert(longer == prefix.push(c));
        assert(longer.drop_last() == prefix);
        assert(body[i - start] == c);
        if !('0' <= c && c <= '9') {
            assert(!is_digit(body[i - start]));
            return None;
        }
        let d = (c as u32 - 48) as i64;
        assert(d as nat == (c as nat) - 48);
        assert(digits_value(longer) == digits_value(prefix) * 10 + d);
        assert(all_digits(longer)) by {
            assert forall|k: int| 0 <= k < longer.len() implies is_digit(#[trigger] longer[k]) by {
                if k < prefix.len() {
                    assert(longer[k] == prefix[k]);
                }
            }
        }
        acc = acc * 10 + d;
        i += 1;
        if acc > limit {
            // The digits read so far already exceed every i32 magnitude; the rest
            // of the string can only make the value larger or turn it invalid.
            proof {
                if all_digits(body) {
                    lemma_digits_value_grows(body, i - start);
                    assert(digits_value(body) > 2147483648);
                }
            }
            return None;
        }
    }
    assert(body.take(n - start) == body);
    if neg {
        Some((-acc) as i32)
    } else if acc > 2147483647 {
        None
    } else {
        Some(acc as i32)
    }
}

/// A signed numeral parses back to the integer it was written from.
pub proof fn law_parse_i32_of_decimal(n: i32)
    ensures
        parse_i32_spec(signed_decimal(n as int)) == Some(n),
{
    if n < 0 {
        let m = (-(n as int)) as nat;
        lemma_decimal_digits(m);
        let s = signed_decimal(n as int);
        assert(s.drop_first() == decimal(m));
    } else {
        lemma_decimal_digits(n as nat);
        let d = decimal(n as nat);
        assert(is_digit(d[0]));
    }
}

/// A numeral is a non-empty string of digits whose value is the number.
pub proof fn lemma_decimal_digits(n: nat)
    ensures
        decimal(n).len() > 0,
        all_digits(decimal(n)),
        digits_value(decimal(n)) == n,
    decreases n,
{
    if n >= 10 {
        lemma_decimal_digits(n / 10);
        let d = decimal(n);
        assert(d.drop_last() == decimal(n / 10));
        let r = n % 10;
        vstd::arithmetic::div_mod::lemma_fundamental_div_mod(n as int, 10);
        assert(((r + 48) as char) as nat == r + 48);
        assert(d.last() == digit_char(r));
        assert(digits_value(d) == digits_value(d.drop_last()) * 10 + r);
        assert(digits_value(d.drop_last()) == n / 10);
        assert(n == 10 * (n / 10) + r);
        assert forall|i: int| 0 <= i < d.len() implies is_digit(#[trigger] d[i]) by {
            if i < d.len() - 1 {
                assert(d[i] == decimal(n / 10)[i]);
            }
        }
    } else {
        let d = decimal(n);
        assert(((n + 48) as char) as nat == n + 48);
        assert(d.len() == 1);
        assert(d.last() == digit_char(n));
        assert(d.drop_last() == Seq::<char>::empty());
        assert(digits_value(d.drop_last()) == 0);
        assert(digits_value(d) == n);
    }
}

// ---------------------------------------------------------------------------
// Joining
// ---------------------------------------------------------------------------

/// The parts written one after another with `sep` between neighbours, as
/// `[String]::join` gives them.
pub open spec fn join_spec(parts: Seq<Seq<char>>, sep: Seq<char>) -> Seq<char>
    decreases parts.len(),
{
    if parts.len() == 0 {
        Seq::empty()
    } else if parts.len() == 1 {
        parts[0]
    } else {
        join_spec(parts.drop_last(), sep) + sep + parts.last()
    }
}

/// `t` occurs in `s`.
pub open spec fn occurs_in(t: Seq<char>, s: Seq<char>) -> bool {
    exists|off: int| 0 <= off && off + t.len() <= s.len() && #[trigger] s.subrange(off, off + t.len()) == t
}

/// Every part occurs in the joined text.
pub proof fn law_join_keeps_every_part(parts: Seq<Seq<char>>, sep: Seq<char>, k: int)
    requires
        0 <= k < parts.len(),
    ensures
        occurs_in(parts[k], join_spec(parts, sep)),
    decreases parts.len(),
{
    let j = join_spec(parts, sep);
    if parts.len() == 1 {
        let off: int = 0;
        assert(j.subrange(off, off + parts[k].len()) == parts[k]);
        assert(occurs_in(parts[k], j));
    } else if k == parts.len() - 1 {
        let off = j.len() - parts[k].len();
        assert(j == join_spec(parts.drop_last(), sep) + sep + parts.last());
        assert(j.subrange(off, off + parts[k].len()) == parts[k]);
        assert(occurs_in(parts[k], j));
    } else {
        law_join_keeps_every_part(parts.drop_last(), sep, k);
        let front = join_spec(parts.drop_last(), sep);
        let off = choose|off: int|
            0 <= off && off + parts[k].len() <= front.len() && #[trigger] front.subrange(
                off,
                off + parts[k].len(),
            ) == parts.drop_last()[k];
        assert(parts.drop_last()[k] == parts[k]);
        assert(j == front + sep + parts.last());
        assert(j.subrange(off, off + parts[k].len()) == front.subrange(off, off + parts[k].len()));
        assert(occurs_in(parts[k], j));
    }
}

/// The views of a list of strings.
pub open spec fn views(v: Seq<String>) -> Seq<Seq<char>> {
    v.map_values(|s: String| s@)
}

/// `parts` joined with `sep` between neighbours.
pub fn join(parts: &Vec<String>, sep: &str) -> (r: String)
    ensures
        r@ == join_spec(views(parts@), sep@),
{
    let mut r = String::new();
    let mut i: usize = 0;
    while i < parts.len()
        invariant
            i <= parts@.len(),
            r@ == join_spec(views(parts@).take(i as int), sep@),
        decreases parts.len() - i,
    {
        let ghost before = views(parts@).take(i as int);
        if i > 0 {
            push_str(&mut r, sep);
        }
        push_str(&mut r, parts[i].as_str());
        assert(views(parts@).take(i + 1).drop_last() == before);
        assert(views(parts@).take(i + 1).last() == parts@[i as int]@);
        if i == 0 {
            assert(r@ == parts@[0]@);
        }
        i += 1;
    }
    assert(views(parts@).take(i as int) == views(parts@));
    r
}

// ---------------------------------------------------------------------------
// Last segment of a path
// ---------------------------------------------------------------------------

/// What `s.split(sep).last()` gives: the text after the last `sep`, or all of
/// `s` when it holds no `sep`.
pub open spec fn last_segment(s: Seq<char>, sep: char) -> Seq<char>
    decreases s.len(),
{
    if s.len() == 0 {
        s
    } else if s.last() == sep {
        Seq::empty()
    } else {
        last_segment(s.drop_last(), sep).push(s.last())
    }
}

/// The last segment never holds the separator, and is a suffix of the text.
pub proof fn lemma_last_segment(s: Seq<char>, sep: char)
    ensures
        !last_segment(s, sep).contains(sep),
        last_segment(s, sep).len() <= s.len(),
        last_segment(s, sep) == s.subrange(s.len() - last_segment(s, sep).len(), s.len() as int),
    decreases s.len(),
{
    if s.len() > 0 && s.last() != sep {
        lemma_last_segment(s.drop_last(), sep);
        let t = last_segment(s.drop_last(), sep);
        let u = t.push(s.last());
        assert forall|i: int| 0 <= i < u.len() implies u[i] != sep by {
            if i < t.len() {
                assert(u[i] == t[i]);
                assert(!t.contains(sep));
            }
        }
        assert(u == s.subrange(s.len() - u.len(), s.len() as int));
    } else if s.len() > 0 {
        assert(s.subrange(s.len() as int, s.len() as int) == Seq::<char>::empty());
    }
}

/// The text of `s` after its last `sep` (all of it when there is none).
pub fn last_segment_of(s: &str, sep: char) -> (r: String)
    ensures
        r@ == last_segment(s@, sep),
{
    let v = chars_of(s);
    let n = v.len();
    let mut start: usize = n;
    assert(v@.take(n as int) == v@);
    assert(v@.subrange(n as int, n as int) == Seq::<char>::empty());
    assert(last_segment(v@, sep) + Seq::<char>::empty() == last_segment(v@, sep));
    while start > 0 && v[start - 1] != sep
        invariant
            start <= n == v@.len(),
            last_segment(v@, sep) == last_segment(v@.take(start as int), sep) + v@.subrange(
                start as int,
                n as int,
            ),
        decreases start,
    {
        let ghost t = v@.take(start as int);
        assert(t.drop_last() == v@.take(start - 1));
        assert(v@.subrange(start - 1, n as int) == seq![t.last()] + v@.subrange(
            start as int,
            n as int,
        ));
        start -= 1;
    }
    assert(v@.take(n as int) == v@);
    assert(last_segment(v@.take(start as int), sep) == Seq::<char>::empty()) by {
        if start > 0 {
            assert(v@.take(start as int).last() == sep);
        }
    }
    string_of_range(&v, start, n)
}

// ---------------------------------------------------------------------------
// Form fields
// ---------------------------------------------------------------------------

/// The names and values of a list of form fields.
pub open spec fn pairs_view(v: Seq<(String, String)>) -> Seq<(Seq<char>, Seq<char>)> {
    v.map_values(|p: (String, String)| (p.0@, p.1@))
}

/// A form field named `name` with value `value`.
pub fn field(name: &str, value: &str) -> (r: (String, String))
    ensures
        (r.0@, r.1@) == (name@, value@),
{
    let mut a = String::new();
    push_str(&mut a, name);
    let mut b = String::new();
    push_str(&mut b, value);
    (a, b)
}

// ---------------------------------------------------------------------------
// UTF-8
// ---------------------------------------------------------------------------

/// The UTF-8 bytes of two texts written one after the other are the bytes of
/// the first followed by the bytes of the second.
pub proof fn lemma_encode_utf8_concat(a: Seq<char>, b: Seq<char>)
    ensures
        vstd::utf8::encode_utf8(a + b) == vstd::utf8::encode_utf8(a) + vstd::utf8::encode_utf8(b),
    decreases a.len(),
{
    if a.len() > 0 {
        lemma_encode_utf8_concat(a.drop_first(), b);
        assert((a + b).drop_first() == a.drop_first() + b);
        assert((a + b)[0] == a[0]);
    } else {
        assert(a + b == b);
    }
}

} // verus!

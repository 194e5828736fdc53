//! Character-sequence helpers shared by the request model and the response
//! builder: ASCII case folding, separator splitting, joining, trimming and
//! decimal numerals, each implemented against an exact specification.
use vstd::prelude::*;

verus! {

/// ASCII-lowercase a single character; anything outside `A..Z` is unchanged.
pub open spec fn lower_char(c: char) -> char {
    if 'A' <= c && c <= 'Z' {
        ((c as u32) + 32) as char
    } else {
        c
    }
}

/// ASCII-lowercase a character sequence.
pub open spec fn lower_seq(s: Seq<char>) -> Seq<char> {
    s.map_values(|c: char| lower_char(c))
}

/// The UTF-8 encoding of a character sequence.
pub open spec fn encode_utf8_seq(s: Seq<char>) -> Seq<u8> {
    vstd::utf8::encode_utf8(s)
}

/// ASCII-uppercase a single character; anything outside `a..z` is unchanged.
pub open spec fn upper_char(c: char) -> char {
    if 'a' <= c && c <= 'z' {
        ((c as u32) - 32) as char
    } else {
        c
    }
}

/// ASCII-uppercase a character sequence.
pub open spec fn upper_seq(s: Seq<char>) -> Seq<char> {
    s.map_values(|c: char| upper_char(c))
}

/// Relies on String::push: appends exactly one character at the end.
#[verifier::external_body]
pub fn push_char(s: &mut String, c: char)
    ensures
        final(s)@ == old(s)@.push(c),
{
    s.push(c);
}

/// Relies on str's PartialEq: two string slices are equal exactly when their
/// character sequences are.
#[verifier::external_body]
pub fn str_eq(a: &str, b: &str) -> (r: bool)
    ensures
        r == (a@ == b@),
{
    a == b
}

fn lower_char_exec(c: char) -> (r: char)
    ensures
        r == lower_char(c),
{
    let u = c as u32;
    if 65 <= u && u <= 90 {
        ((u + 32) as u8) as char
    } else {
        c
    }
}

fn upper_char_exec(c: char) -> (r: char)
    ensures
        r == upper_char(c),
{
    let u = c as u32;
    if 97 <= u && u <= 122 {
        ((u - 32) as u8) as char
    } else {
        c
    }
}

/// ASCII-uppercase a string, character by character.
pub fn to_uppercase_ascii(s: &str) -> (r: String)
    ensures
        r@ == upper_seq(s@),
{
    let n = s.unicode_len();
    let mut r = String::new();
    let mut i: usize = 0;
    while i < n
        invariant
            i <= n,
            n == s@.len(),
            r@ == upper_seq(s@.take(i as int)),
        decreases n - i,
    {
        let c = s.get_char(i);
        push_char(&mut r, upper_char_exec(c));
        proof {
            assert(upper_seq(s@.take(i + 1)) =~= upper_seq(s@.take(i as int)).push(
                upper_char(s@[i as int]),
            ));
        }
        i += 1;
    }
    proof {
        assert(s@.take(n as int) =~= s@);
    }
    r
}

/// ASCII-lowercase a string, character by character.
pub fn to_lowercase_ascii(s: &str) -> (r: String)
    ensures
        r@ == lower_seq(s@),
{
    let n = s.unicode_len();
    let mut r = String::new();
    let mut i: usize = 0;
    while i < n
        invariant
            i <= n,
            n == s@.len(),
            r@ == lower_seq(s@.take(i as int)),
        decreases n - i,
    {
        let c = s.get_char(i);
        push_char(&mut r, lower_char_exec(c));
        proof {
            assert(lower_seq(s@.take(i + 1)) =~= lower_seq(s@.take(i as int)).push(
                lower_char(s@[i as int]),
            ));
        }
        i += 1;
    }
    proof {
        assert(s@.take(n as int) =~= s@);
    }
    r
}

/// Split `s` at every occurrence of `sep`, dropping empty pieces.  The
/// definition follows the string character by character: a separator closes
/// the current piece, any other character either opens a new piece or extends
/// the one still open.
pub open spec fn split_drop(s: Seq<char>, sep: char) -> Seq<Seq<char>>
    decreases s.len(),
{
    if s.len() == 0 {
        seq![]
    } else {
        let head = s.drop_last();
        let c = s.last();
        let rest = split_drop(head, sep);
        if c == sep {
            rest
        } else if head.len() == 0 || head.last() == sep {
            rest.push(seq![c])
        } else {
            rest.update(rest.len() - 1, rest.last().push(c))
        }
    }
}

/// Every piece produced by `split_drop` is non-empty and free of the separator.
pub proof fn lemma_split_drop_pieces(s: Seq<char>, sep: char)
    ensures
        forall|k: int|
            0 <= k < split_drop(s, sep).len() ==> (#[trigger] split_drop(s, sep)[k]).len() > 0
                && !split_drop(s, sep)[k].contains(sep),
    decreases s.len(),
{
    if s.len() > 0 {
        let head = s.drop_last();
        let c = s.last();
        lemma_split_drop_pieces(head, sep);
        let rest = split_drop(head, sep);
        if c == sep {
        } else if head.len() == 0 || head.last() == sep {
            assert forall|k: int| 0 <= k < split_drop(s, sep).len() implies (
            #[trigger] split_drop(s, sep)[k]).len() > 0 && !split_drop(s, sep)[k].contains(
                sep,
            ) by {
                if k == rest.len() {
                    assert(split_drop(s, sep)[k] =~= seq![c]);
                    assert(forall|j: int|
                        0 <= j < seq![c].len() ==> #[trigger] seq![c][j] != sep);
                }
            }
        } else {
            assert(rest.len() > 0) by {
                lemma_split_drop_open(head, sep);
            }
            assert forall|k: int| 0 <= k < split_drop(s, sep).len() implies (
            #[trigger] split_drop(s, sep)[k]).len() > 0 && !split_drop(s, sep)[k].contains(
                sep,
            ) by {
                if k == rest.len() - 1 {
                    let piece = rest.last().push(c);
                    assert(forall|j: int|
                        0 <= j < piece.len() ==> #[trigger] piece[j] != sep);
                }
            }
        }
    }
}

/// A string that ends in a non-separator has at least one piece.
pub proof fn lemma_split_drop_open(s: Seq<char>, sep: char)
    requires
        s.len() > 0,
        s.last() != sep,
    ensures
        split_drop(s, sep).len() > 0,
    decreases s.len(),
{
    let head = s.drop_last();
    if head.len() > 0 && head.last() != sep {
        lemma_split_drop_open(head, sep);
    }
}

fn char_to_string(c: char) -> (r: String)
    ensures
        r@ =~= seq![c],
{
    let mut r = String::new();
    push_char(&mut r, c);
    r
}

/// The views of a vector of strings.
pub open spec fn views_of(v: Seq<String>) -> Seq<Seq<char>> {
    v.map_values(|t: String| t@)
}

/// Split a string at `sep`, dropping empty pieces.
pub fn split_str(s: &str, sep: char) -> (r: Vec<String>)
    ensures
        views_of(r@) == split_drop(s@, sep),
{
    let n = s.unicode_len();
    let mut r: Vec<String> = Vec::new();
    let mut open = false;
    let mut i: usize = 0;
    while i < n
        invariant
            i <= n,
            n == s@.len(),
            views_of(r@) == split_drop(s@.take(i as int), sep),
            open == (i > 0 && s@[i - 1] != sep),
            open ==> r@.len() > 0,
        decreases n - i,
    {
        let ghost prefix = s@.take(i as int);
        let c = s.get_char(i);
        proof {
            assert(s@.take(i + 1).drop_last() =~= prefix);
        }
        if c == sep {
            open = false;
        } else if !open {
            r.push(char_to_string(c));
            open = true;
            proof {
                assert(views_of(r@) =~= split_drop(s@.take(i + 1), sep));
            }
        } else {
            let mut last = r.pop().unwrap();
            push_char(&mut last, c);
            r.push(last);
            open = true;
            proof {
                let rest = split_drop(prefix, sep);
                assert(views_of(r@) =~= rest.update(rest.len() - 1, rest.last().push(c)));
            }
        }
        i += 1;
    }
    proof {
        assert(s@.take(n as int) =~= s@);
    }
    r
}

/// `s` cut to `max` characters: a longer string keeps its first `max - 3`
/// characters and ends in an ellipsis.
pub open spec fn spec_truncate(s: Seq<char>, max: int) -> Seq<char> {
    if s.len() > max {
        s.take(max - 3) + "..."@
    } else {
        s
    }
}

/// Cut `s` to at most `max_len` characters, ending a cut string with `...`.
pub fn truncate_string(s: &str, max_len: usize) -> (r: String)
    requires
        max_len >= 3,
    ensures
        r@ == spec_truncate(s@, max_len as int),
{
    let n = s.unicode_len();
    if n > max_len {
        let mut r = s.substring_char(0, max_len - 3).to_owned();
        r.append("...");
        r
    } else {
        s.to_owned()
    }
}

/// Index of the first occurrence of `c` in `s`, or `s.len()` when absent.
pub open spec fn find_char(s: Seq<char>, c: char) -> int
    decreases s.len(),
{
    if s.len() == 0 {
        0
    } else if s[0] == c {
        0
    } else {
        1 + find_char(s.drop_first(), c)
    }
}

pub proof fn lemma_find_char(s: Seq<char>, c: char)
    ensures
        0 <= find_char(s, c) <= s.len(),
        find_char(s, c) < s.len() ==> s[find_char(s, c)] == c,
        forall|j: int| 0 <= j < find_char(s, c) ==> s[j] != c,
    decreases s.len(),
{
    if s.len() > 0 && s[0] != c {
        lemma_find_char(s.drop_first(), c);
        assert forall|j: int| 0 <= j < find_char(s, c) implies s[j] != c by {
            if j > 0 {
                assert(s.drop_first()[j - 1] != c);
            }
        }
    }
}

/// Find the first occurrence of `c`; `s.len()` when there is none.
pub fn find_char_at(s: &str, c: char) -> (r: usize)
    ensures
        r == find_char(s@, c),
{
    let n = s.unicode_len();
    let mut i: usize = 0;
    proof {
        assert(s@.skip(0) =~= s@);
        lemma_find_char(s@, c);
    }
    while i < n
        invariant
            i <= n,
            n == s@.len(),
            find_char(s@, c) == i + find_char(s@.skip(i as int), c),
            find_char(s@, c) >= i,
        decreases n - i,
    {
        let ghost tail = s@.skip(i as int);
        proof {
            assert(tail[0] == s@[i as int]);
            assert(tail.drop_first() =~= s@.skip(i + 1));
            lemma_find_char(s@.skip(i + 1), c);
        }
        if s.get_char(i) == c {
            proof {
                assert(find_char(tail, c) == 0);
            }
            return i;
        }
        i += 1;
    }
    proof {
        assert(s@.skip(n as int) =~= Seq::<char>::empty());
    }
    n
}

/// The characters stripped from string ends by `trim`.
pub open spec fn is_space(c: char) -> bool {
    c == ' ' || c == '\t' || c == '\r' || c == '\n'
}

/// Number of leading space characters.
pub open spec fn leading_spaces(s: Seq<char>) -> int
    decreases s.len(),
{
    if s.len() == 0 || !is_space(s[0]) {
        0
    } else {
        1 + leading_spaces(s.drop_first())
    }
}

/// Number of trailing space characters.
pub open spec fn trailing_spaces(s: Seq<char>) -> int
    decreases s.len(),
{
    if s.len() == 0 || !is_space(s.last()) {
        0
    } else {
        1 + trailing_spaces(s.drop_last())
    }
}

/// `s` with leading and trailing spaces removed.
pub open spec fn trim_seq(s: Seq<char>) -> Seq<char> {
    let a = leading_spaces(s);
    let b = s.len() - trailing_spaces(s);
    if a < b {
        s.subrange(a, b)
    } else {
        Seq::empty()
    }
}

proof fn lemma_leading_spaces(s: Seq<char>)
    ensures
        0 <= leading_spaces(s) <= s.len(),
        forall|j: int| 0 <= j < leading_spaces(s) ==> is_space(s[j]),
        leading_spaces(s) < s.len() ==> !is_space(s[leading_spaces(s)]),
    decreases s.len(),
{
    if s.len() > 0 && is_space(s[0]) {
        lemma_leading_spaces(s.drop_first());
        assert forall|j: int| 0 <= j < leading_spaces(s) implies is_space(s[j]) by {
            if j > 0 {
                assert(is_space(s.drop_first()[j - 1]));
            }
        }
    }
}

proof fn lemma_trailing_spaces(s: Seq<char>)
    ensures
        0 <= trailing_spaces(s) <= s.len(),
        forall|j: int| s.len() - trailing_spaces(s) <= j < s.len() ==> is_space(s[j]),
        trailing_spaces(s) < s.len() ==> !is_space(s[s.len() - trailing_spaces(s) - 1]),
    decreases s.len(),
{
    if s.len() > 0 && is_space(s.last()) {
        lemma_trailing_spaces(s.drop_last());
        assert forall|j: int| s.len() - trailing_spaces(s) <= j < s.len() implies is_space(
            s[j],
        ) by {
            if j < s.len() - 1 {
                assert(is_space(s.drop_last()[j]));
            }
        }
    }
}

fn is_space_char(c: char) -> (r: bool)
    ensures
        r == is_space(c),
{
    c == ' ' || c == '\t' || c == '\r' || c == '\n'
}

/// Strip spaces from both ends of a string.
pub fn trim(s: &str) -> (r: String)
    ensures
        r@ == trim_seq(s@),
{
    let n = s.unicode_len();
    let mut a: usize = 0;
    proof {
        lemma_leading_spaces(s@);
        assert(s@.skip(0) =~= s@);
    }
    while a < n && is_space_char(s.get_char(a))
        invariant
            a <= n,
            n == s@.len(),
            leading_spaces(s@) == a + leading_spaces(s@.skip(a as int)),
            leading_spaces(s@) >= a,
        decreases n - a,
    {
        proof {
            let tail = s@.skip(a as int);
            assert(tail[0] == s@[a as int]);
            assert(tail.drop_first() =~= s@.skip(a + 1));
            lemma_leading_spaces(s@.skip(a + 1));
        }
        a += 1;
    }
    proof {
        if a < n {
            assert(s@.skip(a as int)[0] == s@[a as int]);
            assert(leading_spaces(s@.skip(a as int)) == 0);
        } else {
            assert(s@.skip(n as int) =~= Seq::<char>::empty());
        }
        assert(leading_spaces(s@) == a);
        assert(s@.take(n as int) =~= s@);
    }
    let mut b: usize = n;
    while b > a && is_space_char(s.get_char(b - 1))
        invariant
            a <= b <= n,
            n == s@.len(),
            a == leading_spaces(s@),
            trailing_spaces(s@) == n - b + trailing_spaces(s@.take(b as int)),
            b == n || is_space(s@[b as int]),
        decreases b,
    {
        proof {
            let head = s@.take(b as int);
            assert(head.last() == s@[b - 1]);
            assert(head.drop_last() =~= s@.take(b - 1));
        }
        b -= 1;
    }
    proof {
        lemma_leading_spaces(s@);
        if b > a {
            assert(s@.take(b as int).last() == s@[b - 1]);
            assert(trailing_spaces(s@.take(b as int)) == 0);
            assert(trailing_spaces(s@) == n - b);
        } else {
            // every character of the remaining prefix is a space: the trim is empty
            assert(b == a);
            if b > 0 {
                assert forall|j: int| 0 <= j < s@.take(b as int).len() implies is_space(
                    s@.take(b as int)[j],
                ) by {
                    assert(is_space(s@[j]));
                }
                assert(trailing_spaces(s@.take(b as int)) == b) by {
                    lemma_all_spaces(s@.take(b as int));
                }
            }
            assert(trailing_spaces(s@) == n - b + b);
        }
    }
    let piece = s.substring_char(a, b);
    proof {
        if a < b {
            assert(piece@ =~= trim_seq(s@));
        } else {
            assert(piece@ =~= trim_seq(s@));
        }
    }
    piece.to_owned()
}

/// A decimal digit.
pub open spec fn is_digit(c: char) -> bool {
    '0' <= c && c <= '9'
}

pub open spec fn digit_val(c: char) -> int {
    c as int - 48
}

pub open spec fn all_digits(s: Seq<char>) -> bool {
    forall|j: int| 0 <= j < s.len() ==> is_digit(#[trigger] s[j])
}

/// The value of a most-significant-first digit string.
pub open spec fn dec_val(s: Seq<char>) -> int
    decreases s.len(),
{
    if s.len() == 0 {
        0
    } else {
        dec_val(s.drop_last()) * 10 + digit_val(s.last())
    }
}

pub proof fn lemma_dec_val_bounds(s: Seq<char>)
    requires
        all_digits(s),
    ensures
        dec_val(s) >= 0,
        s.len() > 0 ==> dec_val(s) >= digit_val(s.last()),
    decreases s.len(),
{
    if s.len() > 0 {
        lemma_dec_val_bounds(s.drop_last());
    }
}

/// Extending a digit string never lowers its value.
pub proof fn lemma_dec_val_prefix(s: Seq<char>, i: int)
    requires
        all_digits(s),
        0 <= i <= s.len(),
    ensures
        dec_val(s) >= dec_val(s.take(i)),
    decreases s.len() - i,
{
    if i < s.len() {
        lemma_dec_val_prefix(s, i + 1);
        assert(s.take(i + 1).drop_last() =~= s.take(i));
        assert(forall|j: int| 0 <= j < s.take(i).len() ==> is_digit(#[trigger] s.take(i)[j]));
        lemma_dec_val_bounds(s.take(i));
    } else {
        assert(s.take(i) =~= s);
    }
}

/// The digit strings accepted by `parse_usize`: an optional `+` sign followed
/// by at least one decimal digit.
pub open spec fn numeral_body(s: Seq<char>) -> Seq<char> {
    if s.len() > 0 && s[0] == '+' {
        s.skip(1)
    } else {
        s
    }
}

pub open spec fn is_numeral(s: Seq<char>) -> bool {
    numeral_body(s).len() > 0 && all_digits(numeral_body(s))
}

/// Parse a decimal numeral.  Returns the value exactly when `s` is a numeral
/// whose value fits in `usize`, and `None` otherwise.
pub fn parse_usize(s: &str) -> (r: Option<usize>)
    ensures
        match r {
            Some(v) => is_numeral(s@) && v == dec_val(numeral_body(s@)),
            None => !is_numeral(s@) || dec_val(numeral_body(s@)) > usize::MAX,
        },
{
    let n = s.unicode_len();
    let start: usize = if n > 0 && s.get_char(0) == '+' {
        1
    } else {
        0
    };
    if start == n {
        return None;
    }
    let ghost body = numeral_body(s@);
    proof {
        assert(body =~= s@.skip(start as int));
    }
    let mut v: usize = 0;
    let mut i: usize = start;
    while i < n
        invariant
            start <= i <= n,
            n == s@.len(),
            start == (if n > 0 && s@[0] == '+' { 1int } else { 0int }),
            body == s@.skip(start as int),
            all_digits(body.take(i - start)),
            v == dec_val(body.take(i - start)),
        decreases n - i,
    {
        let c = s.get_char(i);
        let u = c as u32;
        if !(48 <= u && u <= 57) {
            proof {
                if start == 0 {
                    assert(s@.skip(0) =~= s@);
                }
                assert(numeral_body(s@) == body);
                assert(body[i - start] == s@[i as int]);
                assert(!is_digit(body[i - start]));
                assert(!all_digits(body));
            }
            return None;
        }
        let d: usize = ((u - 48) as u8) as usize;
        proof {
            assert(is_digit(c));
            assert(d == digit_val(c));
            assert(body.take(i + 1 - start).drop_last() =~= body.take(i - start));
            assert(body.take(i + 1 - start).last() == s@[i as int]);
        }
        if v > (usize::MAX - d) / 10 {
            // the numeral no longer fits: its full value can only be larger
            proof {
                if start == 0 {
                    assert(s@.skip(0) =~= s@);
                }
                assert(numeral_body(s@) == body);
                assert(all_digits(body.take(i + 1 - start)));
                let q = (usize::MAX - d) / 10;
                assert(usize::MAX - d == 10 * q + (usize::MAX - d) % 10);
                assert(v * 10 >= (q + 1) * 10) by (nonlinear_arith)
                    requires v >= q + 1;
                assert(dec_val(body.take(i + 1 - start)) == v * 10 + d);
                assert(dec_val(body.take(i + 1 - start)) > usize::MAX);
                if all_digits(body) {
                    lemma_dec_val_prefix(body, i + 1 - start);
                }
            }
            return None;
        }
        v = v * 10 + d;
        i += 1;
    }
    proof {
        if start == 0 {
            assert(s@.skip(0) =~= s@);
        }
        assert(numeral_body(s@) == body);
        assert(body.take(n - start) =~= body);
    }
    Some(v)
}

/// The shortest decimal rendering of a non-negative number.
pub open spec fn dec_str(n: int) -> Seq<char>
    decreases n,
{
    if n < 0 {
        Seq::empty()
    } else if n < 10 {
        seq![(48 + n) as char]
    } else {
        dec_str(n / 10).push((48 + n % 10) as char)
    }
}

/// Render a number in decimal.
pub fn u64_to_dec(n: u64) -> (r: String)
    ensures
        r@ == dec_str(n as int),
    decreases n,
{
    if n < 10 {
        char_to_string((48 + n as u8) as char)
    } else {
        let mut r = u64_to_dec(n / 10);
        push_char(&mut r, (48 + (n % 10) as u8) as char);
        r
    }
}

/// The pieces joined with `/` between them.
pub open spec fn join_slash(parts: Seq<Seq<char>>) -> Seq<char>
    decreases parts.len(),
{
    if parts.len() == 0 {
        Seq::empty()
    } else if parts.len() == 1 {
        parts[0]
    } else {
        join_slash(parts.drop_last()) + seq!['/'] + parts.last()
    }
}

/// Join string pieces with `/` between them.
pub fn join_with_slash(parts: &Vec<String>) -> (r: String)
    ensures
        r@ == join_slash(views_of(parts@)),
{
    let mut r = String::new();
    let mut i: usize = 0;
    while i < parts.len()
        invariant
            i <= parts@.len(),
            r@ == join_slash(views_of(parts@).take(i as int)),
        decreases parts@.len() - i,
    {
        if i > 0 {
            push_char(&mut r, '/');
        }
        r.append(parts[i].as_str());
        proof {
            let vs = views_of(parts@);
            assert(vs.take(i + 1).drop_last() =~= vs.take(i as int));
            assert(vs.take(i + 1).last() == parts@[i as int]@);
            if i == 0 {
                assert(join_slash(vs.take(1)) == vs.take(1)[0]);
                assert(r@ =~= vs.take(1)[0]);
            }
        }
        i += 1;
    }
    proof {
        assert(views_of(parts@).take(parts@.len() as int) =~= views_of(parts@));
    }
    r
}

proof fn lemma_all_spaces(s: Seq<char>)
    requires
        forall|j: int| 0 <= j < s.len() ==> is_space(s[j]),
    ensures
        trailing_spaces(s) == s.len(),
    decreases s.len(),
{
    if s.len() > 0 {
        lemma_all_spaces(s.drop_last());
    }
}

} // verus!

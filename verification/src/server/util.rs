//! Shortening file names so that none is longer than a file system allows,
//! counted in bytes of UTF-8 and cut only between characters.

use vstd::prelude::*;
use crate::text::{chars_of, push_char, push_range};

verus! {

/// The longest name, in bytes, that is left as it is.
pub const MAX_NAME: usize = 255;

/// The number of bytes that UTF-8 takes for `c`.
pub open spec fn utf8_width(c: char) -> nat {
    if (c as u32) < 0x80 {
        1
    } else if (c as u32) < 0x800 {
        2
    } else if (c as u32) < 0x10000 {
        3
    } else {
        4
    }
}

/// The number of bytes that UTF-8 takes for `s`.
pub open spec fn byte_len(s: Seq<char>) -> nat
    decreases s.len(),
{
    if s.len() == 0 {
        0
    } else {
        utf8_width(s[0]) + byte_len(s.skip(1))
    }
}

/// How many characters from the start of `s` fit together into `n` bytes.
pub open spec fn fit_count(s: Seq<char>, n: nat) -> nat
    decreases s.len(),
{
    if s.len() == 0 || utf8_width(s[0]) > n {
        0
    } else {
        1 + fit_count(s.skip(1), (n - utf8_width(s[0])) as nat)
    }
}

/// The longest start of `s` that takes at most `n` bytes.
pub open spec fn shorten_spec(s: Seq<char>, n: nat) -> Seq<char> {
    s.take(fit_count(s, n) as int)
}

/// `s` can be shortened to `n` bytes with something left: it is shorter than
/// `n` bytes, or its first character fits into `n` bytes.
pub open spec fn can_shorten(s: Seq<char>, n: nat) -> bool {
    byte_len(s) < n || fit_count(s, n) > 0
}

/// The position of the last `.` in `s`; -1 where there is none.
pub open spec fn last_dot(s: Seq<char>) -> int
    decreases s.len(),
{
    if s.len() == 0 {
        -1
    } else if s.last() == '.' {
        s.len() - 1
    } else {
        last_dot(s.drop_last())
    }
}

/// The longest extension, in bytes, that is kept whole.
pub open spec fn max_extension() -> nat {
    5
}

/// Whether `s` ends in an extension that is kept: a `.` and at most
/// [`max_extension`] bytes behind the last one.
pub open spec fn has_short_extension(s: Seq<char>) -> bool {
    last_dot(s) >= 0 && byte_len(s.subrange(last_dot(s) + 1, s.len() as int)) <= max_extension()
}

/// A file name shortened to `n` bytes. A kept extension stays whole and the
/// part before its `.` is shortened to what is left; any other name is
/// shortened as a whole.
pub open spec fn shorten_name_spec(s: Seq<char>, n: nat) -> Seq<char> {
    if has_short_extension(s) {
        let dot = last_dot(s);
        let extension = s.subrange(dot + 1, s.len() as int);
        shorten_spec(s.take(dot), (n - byte_len(extension) - 1) as nat) + seq!['.'] + extension
    } else {
        shorten_spec(s, n)
    }
}

/// The name `s` can be shortened to `n` bytes.
pub open spec fn can_shorten_name(s: Seq<char>, n: nat) -> bool {
    if has_short_extension(s) {
        let dot = last_dot(s);
        let extension = s.subrange(dot + 1, s.len() as int);
        n >= byte_len(extension) + 1 && can_shorten(
            s.take(dot),
            (n - byte_len(extension) - 1) as nat,
        )
    } else {
        can_shorten(s, n)
    }
}

/// The position of the first `/` of `s` at or behind `from`; the length of
/// `s` where there is none.
pub open spec fn next_slash(s: Seq<char>, from: int) -> int
    decreases s.len() - from,
{
    if from < 0 || from >= s.len() {
        s.len() as int
    } else if s[from] == '/' {
        from
    } else {
        next_slash(s, from + 1)
    }
}

/// The path from `from` on with each of its names shortened to `n` bytes.
/// Names are what stands between two `/`; the `/` stay.
pub open spec fn shorten_path_from(s: Seq<char>, from: int, n: nat) -> Seq<char>
    decreases s.len() - from,
{
    if from < 0 || from > s.len() {
        Seq::empty()
    } else {
        let end = next_slash(s, from);
        let name = shorten_name_spec(s.subrange(from, end), n);
        if from <= end < s.len() {
            name + seq!['/'] + shorten_path_from(s, end + 1, n)
        } else {
            name
        }
    }
}

/// Every name of the path from `from` on can be shortened to `n` bytes.
pub open spec fn can_shorten_path_from(s: Seq<char>, from: int, n: nat) -> bool
    decreases s.len() - from,
{
    if from < 0 || from > s.len() {
        true
    } else {
        let end = next_slash(s, from);
        can_shorten_name(s.subrange(from, end), n) && (from <= end < s.len()
            ==> can_shorten_path_from(s, end + 1, n))
    }
}

/// What fits is a start of the text, takes at most `n` bytes, and one more
/// character would take more.
pub proof fn lemma_shorten_is_longest(s: Seq<char>, n: nat)
    ensures
        fit_count(s, n) <= s.len(),
        byte_len(shorten_spec(s, n)) <= n,
        fit_count(s, n) < s.len() ==> byte_len(s.take(fit_count(s, n) as int + 1)) > n,
    decreases s.len(),
{
    if s.len() == 0 {
        assert(s.take(0) =~= s);
    } else if utf8_width(s[0]) > n {
        assert(s.take(0).len() == 0);
        assert(s.take(1).skip(1).len() == 0);
        assert(byte_len(s.take(1).skip(1)) == 0);
    } else {
        let rest = s.skip(1);
        let left = (n - utf8_width(s[0])) as nat;
        lemma_shorten_is_longest(rest, left);
        let k = fit_count(rest, left) as int;
        assert(s.take(k + 1).skip(1) =~= rest.take(k));
        if k < rest.len() {
            assert(s.take(k + 2).skip(1) =~= rest.take(k + 1));
        }
    }
}

/// The last `.` is a `.`, and none stands behind it.
pub proof fn lemma_last_dot(s: Seq<char>)
    ensures
        -1 <= last_dot(s) < s.len(),
        last_dot(s) >= 0 ==> s[last_dot(s)] == '.',
        forall|i: int| last_dot(s) < i < s.len() ==> #[trigger] s[i] != '.',
    decreases s.len(),
{
    if s.len() > 0 && s.last() != '.' {
        lemma_last_dot(s.drop_last());
        assert forall|i: int| last_dot(s) < i < s.len() implies #[trigger] s[i] != '.' by {
            if i < s.len() - 1 {
                assert(s.drop_last()[i] == s[i]);
            }
        }
    }
}

/// The bytes of two texts one after the other are the bytes of both.
pub proof fn lemma_byte_len_adds(a: Seq<char>, b: Seq<char>)
    ensures
        byte_len(a + b) == byte_len(a) + byte_len(b),
    decreases a.len(),
{
    if a.len() == 0 {
        assert(a + b =~= b);
    } else {
        lemma_byte_len_adds(a.skip(1), b);
        assert((a + b).skip(1) =~= a.skip(1) + b);
    }
}

/// A shortened name takes at most `n` bytes, where `n` bytes hold the `.`
/// and the extension that is kept.
pub proof fn lemma_short_name_fits(s: Seq<char>, n: nat)
    requires
        has_short_extension(s) ==> n >= byte_len(s.subrange(last_dot(s) + 1, s.len() as int)) + 1,
    ensures
        byte_len(shorten_name_spec(s, n)) <= n,
{
    lemma_last_dot(s);
    if has_short_extension(s) {
        let dot = last_dot(s);
        let extension = s.subrange(dot + 1, s.len() as int);
        let left = (n - byte_len(extension) - 1) as nat;
        let stem = shorten_spec(s.take(dot), left);
        let point = seq!['.'];
        lemma_shorten_is_longest(s.take(dot), left);
        lemma_byte_len_adds(stem, point);
        lemma_byte_len_adds(stem + point, extension);
        assert(point.len() == 1 && point[0] == '.');
        assert(utf8_width('.') == 1);
        assert(point.skip(1).len() == 0);
        assert(byte_len(point.skip(1)) == 0);
        assert(byte_len(point) == 1);
    } else {
        lemma_shorten_is_longest(s, n);
    }
}

/// A text of at most `n` bytes is kept whole.
pub proof fn lemma_short_text_is_kept(s: Seq<char>, n: nat)
    requires
        byte_len(s) <= n,
    ensures
        fit_count(s, n) == s.len(),
        shorten_spec(s, n) == s,
    decreases s.len(),
{
    if s.len() > 0 {
        lemma_short_text_is_kept(s.skip(1), (n - utf8_width(s[0])) as nat);
    }
    assert(s.take(s.len() as int) =~= s);
}

/// The next `/` is a `/`, and none stands before it.
pub proof fn lemma_next_slash(s: Seq<char>, from: int)
    requires
        0 <= from <= s.len(),
    ensures
        from <= next_slash(s, from) <= s.len(),
        next_slash(s, from) < s.len() ==> s[next_slash(s, from)] == '/',
        forall|i: int| from <= i < next_slash(s, from) ==> #[trigger] s[i] != '/',
    decreases s.len() - from,
{
    if from < s.len() && s[from] != '/' {
        lemma_next_slash(s, from + 1);
    }
}

/// Every text can be shortened to a length that holds any one character.
pub proof fn lemma_can_shorten_wide(s: Seq<char>, n: nat)
    requires
        n >= 4,
    ensures
        can_shorten(s, n),
{
    if s.len() == 0 {
    } else {
        assert(fit_count(s, n) > 0);
    }
}

/// Every name can be shortened to [`MAX_NAME`] bytes.
pub proof fn lemma_can_shorten_name_to_max(s: Seq<char>)
    ensures
        can_shorten_name(s, MAX_NAME as nat),
{
    if has_short_extension(s) {
        let dot = last_dot(s);
        let extension = s.subrange(dot + 1, s.len() as int);
        lemma_can_shorten_wide(s.take(dot), (MAX_NAME - byte_len(extension) - 1) as nat);
    } else {
        lemma_can_shorten_wide(s, MAX_NAME as nat);
    }
}

/// Every path can be shortened to [`MAX_NAME`] bytes a name.
pub proof fn lemma_can_shorten_path_to_max(s: Seq<char>, from: int)
    requires
        0 <= from <= s.len(),
    ensures
        can_shorten_path_from(s, from, MAX_NAME as nat),
    decreases s.len() - from,
{
    lemma_next_slash(s, from);
    let end = next_slash(s, from);
    lemma_can_shorten_name_to_max(s.subrange(from, end));
    if end < s.len() {
        lemma_can_shorten_path_to_max(s, end + 1);
    }
}

/// The number of bytes that UTF-8 takes for `c`.
pub fn char_width(c: char) -> (width: usize)
    ensures
        width == utf8_width(c),
        1 <= width <= 4,
{
    let code = c as u32;
    if code < 0x80 {
        1
    } else if code < 0x800 {
        2
    } else if code < 0x10000 {
        3
    } else {
        4
    }
}

/// The position behind the longest start of `v[from..to]` that takes at most
/// `n` bytes.
fn fit_end(v: &Vec<char>, from: usize, to: usize, n: usize) -> (end: usize)
    requires
        from <= to <= v.len(),
    ensures
        end == from + fit_count(v@.subrange(from as int, to as int), n as nat),
        from <= end <= to,
{
    let ghost s = v@.subrange(from as int, to as int);
    let mut i: usize = from;
    let mut left: usize = n;
    assert(s.skip(0) =~= s);
    while i < to && char_width(v[i]) <= left
        invariant
            from <= i <= to <= v.len(),
            s == v@.subrange(from as int, to as int),
            fit_count(s, n as nat) == (i - from) + fit_count(s.skip(i - from), left as nat),
        decreases to - i,
    {
        let ghost rest = s.skip(i - from);
        assert(rest[0] == v@[i as int]);
        assert(rest.skip(1) =~= s.skip(i + 1 - from));
        left -= char_width(v[i]);
        i += 1;
    }
    proof {
        let rest = s.skip(i - from);
        if i < to {
            assert(rest[0] == v@[i as int]);
        }
    }
    i
}

/// The bytes that UTF-8 takes for `v[from..to]`, counted up to `limit`: the
/// result is above `limit` exactly when the text takes more.
fn bytes_up_to(v: &Vec<char>, from: usize, to: usize, limit: usize) -> (count: usize)
    requires
        from <= to <= v.len(),
        limit <= 1000,
    ensures
        count <= limit ==> count == byte_len(v@.subrange(from as int, to as int)),
        count > limit ==> byte_len(v@.subrange(from as int, to as int)) > limit,
{
    let ghost s = v@.subrange(from as int, to as int);
    let mut i: usize = from;
    let mut count: usize = 0;
    assert(s.skip(0) =~= s);
    while i < to && count <= limit
        invariant
            from <= i <= to <= v.len(),
            limit <= 1000,
            count <= limit + 4,
            s == v@.subrange(from as int, to as int),
            byte_len(s) == count + byte_len(s.skip(i - from)),
        decreases to - i,
    {
        let ghost rest = s.skip(i - from);
        assert(rest[0] == v@[i as int]);
        assert(rest.skip(1) =~= s.skip(i + 1 - from));
        count += char_width(v[i]);
        i += 1;
    }
    proof {
        if i == to {
            assert(s.skip(i - from).len() == 0);
        }
    }
    count
}

/// The position of the last `.` in `v[from..to]`, counted from `from`.
fn find_last_dot(v: &Vec<char>, from: usize, to: usize) -> (dot: Option<usize>)
    requires
        from <= to <= v.len(),
    ensures
        match dot {
            Some(at) => from <= at < to && at - from == last_dot(
                v@.subrange(from as int, to as int),
            ),
            None => last_dot(v@.subrange(from as int, to as int)) == -1,
        },
{
    let ghost s = v@.subrange(from as int, to as int);
    let mut i: usize = to;
    assert(s.take(s.len() as int) =~= s);
    while i > from
        invariant
            from <= i <= to <= v.len(),
            s == v@.subrange(from as int, to as int),
            last_dot(s) == last_dot(s.take(i - from)),
        decreases i,
    {
        let ghost head = s.take(i - from);
        assert(head.last() == v@[i - 1]);
        assert(head.drop_last() =~= s.take(i - 1 - from));
        if v[i - 1] == '.' {
            return Some(i - 1);
        }
        i -= 1;
    }
    assert(s.take(0).len() == 0);
    None
}

/// Appends to `out` the name `v[from..to]` shortened to `n` bytes.
fn push_short_name(out: &mut String, v: &Vec<char>, from: usize, to: usize, n: usize)
    requires
        from <= to <= v.len(),
        can_shorten_name(v@.subrange(from as int, to as int), n as nat),
    ensures
        final(out)@ == old(out)@ + shorten_name_spec(v@.subrange(from as int, to as int), n as nat),
{
    let ghost s = v@.subrange(from as int, to as int);
    if let Some(dot) = find_last_dot(v, from, to) {
        let ghost extension = s.subrange(dot - from + 1, s.len() as int);
        assert(extension =~= v@.subrange(dot + 1, to as int));
        let extension_bytes = bytes_up_to(v, dot + 1, to, 5);
        if extension_bytes <= 5 {
            assert(s.take(dot - from) =~= v@.subrange(from as int, dot as int));
            let end = fit_end(v, from, dot, n - extension_bytes - 1);
            push_range(out, v, from, end);
            push_char(out, '.');
            push_range(out, v, dot + 1, to);
            assert(v@.subrange(from as int, end as int) =~= shorten_spec(
                s.take(dot - from),
                (n - extension_bytes - 1) as nat,
            ));
            assert(out@ =~= old(out)@ + shorten_name_spec(s, n as nat));
            return ;
        }
    }
    let end = fit_end(v, from, to, n);
    push_range(out, v, from, end);
    assert(v@.subrange(from as int, end as int) =~= shorten_spec(s, n as nat));
}

/// The longest start of `name` that takes at most `n` bytes of UTF-8 and
/// ends between two characters. `name` must be shorter than `n` bytes, or its
/// first character must fit into `n` bytes.
pub fn shorten_for(name: &str, n: usize) -> (result: String)
    requires
        can_shorten(name@, n as nat),
    ensures
        result@ == shorten_spec(name@, n as nat),
        byte_len(result@) <= n,
        byte_len(name@) <= n ==> result@ == name@,
{
    let v = chars_of(name);
    proof {
        lemma_shorten_is_longest(name@, n as nat);
        if byte_len(name@) <= n {
            lemma_short_text_is_kept(name@, n as nat);
        }
        assert(v@.subrange(0, v.len() as int) =~= name@);
    }
    let end = fit_end(&v, 0, v.len(), n);
    let mut result = String::new();
    push_range(&mut result, &v, 0, end);
    assert(result@ =~= shorten_spec(name@, n as nat));
    result
}

/// `name` shortened to `n` bytes as a file name. Where it ends in a `.` and
/// an extension of at most five bytes, the extension stays and the part
/// before the `.` is shortened to the `n - 1` bytes less the extension's;
/// otherwise the whole name is shortened to `n` bytes.
pub fn shorten_name_for(name: &str, n: usize) -> (result: String)
    requires
        can_shorten_name(name@, n as nat),
    ensures
        result@ == shorten_name_spec(name@, n as nat),
        byte_len(result@) <= n,
{
    let v = chars_of(name);
    proof {
        lemma_short_name_fits(name@, n as nat);
    }
    assert(v@.subrange(0, v.len() as int) =~= name@);
    let mut result = String::new();
    push_short_name(&mut result, &v, 0, v.len(), n);
    assert(result@ =~= shorten_name_spec(name@, n as nat));
    result
}

/// `path` with each name between its `/` shortened to `n` bytes.
pub fn shorten_path_for(path: &str, n: usize) -> (result: String)
    requires
        can_shorten_path_from(path@, 0, n as nat),
    ensures
        result@ == shorten_path_from(path@, 0, n as nat),
{
    let v = chars_of(path);
    let ghost s = path@;
    let mut result = String::new();
    let mut from: usize = 0;
    let mut more = true;
    assert(result@ + shorten_path_from(s, 0, n as nat) =~= shorten_path_from(s, 0, n as nat));
    while more
        invariant
            v@ == s,
            from <= v.len(),
            more ==> can_shorten_path_from(s, from as int, n as nat),
            more ==> result@ + shorten_path_from(s, from as int, n as nat) == shorten_path_from(
                s,
                0,
                n as nat,
            ),
            !more ==> result@ == shorten_path_from(s, 0, n as nat),
        decreases (if more { 1int } else { 0int }), v.len() - from,
    {
        let ghost before = result@;
        let mut end: usize = from;
        proof {
            lemma_next_slash(s, from as int);
        }
        while end < v.len() && v[end] != '/'
            invariant
                v@ == s,
                from <= end <= v.len(),
                next_slash(s, from as int) == next_slash(s, end as int),
            decreases v.len() - end,
        {
            end += 1;
        }
        push_short_name(&mut result, &v, from, end, n);
        if end < v.len() {
            push_char(&mut result, '/');
            assert(result@ + shorten_path_from(s, end + 1, n as nat) =~= before
                + shorten_path_from(s, from as int, n as nat));
            from = end + 1;
        } else {
            more = false;
        }
    }
    result
}

/// `path` with each name between its `/` shortened to [`MAX_NAME`] bytes.
pub fn shorten_path(path: &str) -> (result: String)
    ensures
        result@ == shorten_path_from(path@, 0, MAX_NAME as nat),
{
    proof {
        lemma_can_shorten_path_to_max(path@, 0);
    }
    shorten_path_for(path, MAX_NAME)
}

} // verus!

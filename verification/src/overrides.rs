//! Caller-supplied style overrides: the declarations of an inline CSS text,
//! and how they are merged into a computed style.

use vstd::prelude::*;
use vstd::string::*;

use crate::style::{text_value, Value, Style, StyleModel};
use crate::text::collect_chars;

verus! {

/// A parsed declaration: a property's name and the text of its value.
pub type Pair = (Seq<char>, Seq<char>);

/// What a run of parsed declarations holds.
pub open spec fn pairs_model(pairs: Seq<(String, String)>) -> Seq<Pair> {
    Seq::new(pairs.len(), |i: int| (pairs[i].0@, pairs[i].1@))
}

/// `computed` with the declarations of `pairs` merged in, in order, so that
/// a later declaration of a name wins over an earlier one. A name that
/// `computed` sets is reserved: its declarations are dropped.
pub open spec fn with_overrides(computed: StyleModel, pairs: Seq<Pair>) -> StyleModel
    decreases pairs.len(),
{
    if pairs.len() == 0 {
        computed
    } else {
        let merged = with_overrides(computed, pairs.drop_last());
        let last = pairs.last();
        if computed.contains_key(last.0) {
            merged
        } else {
            merged.insert(last.0, text_value(last.1))
        }
    }
}

/// A computed style with or without overrides.
pub open spec fn overridden(computed: StyleModel, pairs: Option<Seq<Pair>>) -> StyleModel {
    match pairs {
        Some(pairs) => with_overrides(computed, pairs),
        None => computed,
    }
}

/// Whether `pairs` declares `name`.
pub open spec fn overrides_name(pairs: Seq<Pair>, name: Seq<char>) -> bool {
    exists|i: int| 0 <= i < pairs.len() && (#[trigger] pairs[i]).0 == name
}

/// Reserved properties win: whatever the overrides declare, every property
/// of the computed style keeps its computed value.
pub proof fn lemma_computed_properties_win(
    computed: StyleModel,
    pairs: Seq<Pair>,
    name: Seq<char>,
)
    requires
        computed.contains_key(name),
    ensures
        with_overrides(computed, pairs).contains_key(name),
        with_overrides(computed, pairs)[name] == computed[name],
    decreases pairs.len(),
{
    if pairs.len() > 0 {
        lemma_computed_properties_win(computed, pairs.drop_last(), name);
    }
}

/// A property that the computed style does not set is set exactly when the
/// overrides declare it, and then to a text value.
pub proof fn lemma_free_properties_follow_overrides(
    computed: StyleModel,
    pairs: Seq<Pair>,
    name: Seq<char>,
)
    requires
        !computed.contains_key(name),
    ensures
        with_overrides(computed, pairs).contains_key(name) == overrides_name(pairs, name),
        pairs.len() > 0 && pairs.last().0 == name ==> with_overrides(computed, pairs)[name]
            == text_value(pairs.last().1),
        pairs.len() > 0 && pairs.last().0 != name ==> with_overrides(computed, pairs)[name]
            == with_overrides(computed, pairs.drop_last())[name],
    decreases pairs.len(),
{
    if pairs.len() > 0 {
        let rest = pairs.drop_last();
        lemma_free_properties_follow_overrides(computed, rest, name);
        if overrides_name(rest, name) {
            let i = choose|i: int| 0 <= i < rest.len() && (#[trigger] rest[i]).0 == name;
            assert(pairs[i].0 == name);
        }
        if overrides_name(pairs, name) {
            let i = choose|i: int| 0 <= i < pairs.len() && (#[trigger] pairs[i]).0 == name;
            if i < rest.len() {
                assert(rest[i].0 == name);
            }
        }
        if pairs.last().0 == name {
            assert(pairs[pairs.len() - 1].0 == name);
        }
    }
}

/// Merges `pairs` into `style`, whose own properties are reserved.
pub fn apply_overrides(style: &mut Style, pairs: Vec<(String, String)>)
    ensures
        final(style)@ == with_overrides(old(style)@, pairs_model(pairs@)),
{
    let computed = style.clone();
    let ghost model = pairs_model(pairs@);
    let mut i: usize = 0;
    while i < pairs.len()
        invariant
            i <= pairs.len(),
            model == pairs_model(pairs@),
            computed@ == old(style)@,
            style@ == with_overrides(computed@, model.take(i as int)),
        decreases pairs.len() - i,
    {
        let name: &str = pairs[i].0.as_str();
        proof {
            assert(model.take(i + 1).drop_last() =~= model.take(i as int));
            assert(model.take(i + 1).last() == model[i as int]);
        }
        if !computed.contains_key(name) {
            let value = Some(Value::Text(pairs[i].1.clone()));
            style.insert(name, value);
        }
        i += 1;
    }
    proof {
        assert(model.take(pairs.len() as int) =~= model);
    }
}


/// White space, as Unicode defines it.
pub open spec fn is_white_space(c: char) -> bool {
    let n = c as int;
    (0x09 <= n <= 0x0D) || n == 0x20 || n == 0x85 || n == 0xA0 || n == 0x1680 || (0x2000 <= n
        <= 0x200A) || n == 0x2028 || n == 0x2029 || n == 0x202F || n == 0x205F || n == 0x3000
}

/// `s` without the white space it starts with.
pub open spec fn trim_start(s: Seq<char>) -> Seq<char>
    decreases s.len(),
{
    if s.len() > 0 && is_white_space(s[0]) {
        trim_start(s.drop_first())
    } else {
        s
    }
}

/// `s` without the white space it ends with.
pub open spec fn trim_end(s: Seq<char>) -> Seq<char>
    decreases s.len(),
{
    if s.len() > 0 && is_white_space(s.last()) {
        trim_end(s.drop_last())
    } else {
        s
    }
}

/// `s` without the white space around it.
pub open spec fn trimmed(s: Seq<char>) -> Seq<char> {
    trim_end(trim_start(s))
}

/// The index of the first `c` in `s`, or the length of `s` where it has
/// none.
pub open spec fn first_index(s: Seq<char>, c: char) -> int
    decreases s.len(),
{
    if s.len() == 0 || s[0] == c {
        0
    } else {
        1 + first_index(s.drop_first(), c)
    }
}

/// The declaration that a segment between semicolons holds: what stands
/// before its first colon names the property, what stands after it is the
/// value, both without the white space around them. A segment without a
/// colon declares nothing.
pub open spec fn declaration_of(segment: Seq<char>) -> Option<Pair> {
    let colon = first_index(segment, ':');
    if colon < segment.len() {
        Some((trimmed(segment.take(colon)), trimmed(segment.skip(colon + 1))))
    } else {
        None
    }
}

/// The declarations of an inline CSS text, in the order in which they are
/// written.
pub open spec fn declarations(css: Seq<char>) -> Seq<Pair>
    decreases css.len(),
{
    let end = first_index(css, ';');
    let head = match declaration_of(css.take(end)) {
        Some(pair) => seq![pair],
        None => Seq::<Pair>::empty(),
    };
    if 0 <= end < css.len() {
        head + declarations(css.skip(end + 1))
    } else {
        head
    }
}

/// `first_index` is the one index before which `c` does not occur and at
/// which it does, or the text ends.
proof fn lemma_first_index(s: Seq<char>, c: char, i: int)
    requires
        0 <= i <= s.len(),
        forall|j: int| 0 <= j < i ==> s[j] != c,
        i < s.len() ==> s[i] == c,
    ensures
        first_index(s, c) == i,
    decreases s.len(),
{
    if i > 0 {
        assert(s[0] != c);
        let rest = s.drop_first();
        assert forall|j: int| 0 <= j < i - 1 implies rest[j] != c by {
            assert(rest[j] == s[j + 1]);
        }
        lemma_first_index(rest, c, i - 1);
    }
}

/// Trimming at the start drops exactly the leading run of white space.
proof fn lemma_trim_start(s: Seq<char>, k: int)
    requires
        0 <= k <= s.len(),
        forall|j: int| 0 <= j < k ==> is_white_space(s[j]),
        k < s.len() ==> !is_white_space(s[k]),
    ensures
        trim_start(s) == s.skip(k),
    decreases s.len(),
{
    if k > 0 {
        assert(is_white_space(s[0]));
        let rest = s.drop_first();
        assert forall|j: int| 0 <= j < k - 1 implies is_white_space(rest[j]) by {
            assert(rest[j] == s[j + 1]);
        }
        lemma_trim_start(rest, k - 1);
        assert(rest.skip(k - 1) =~= s.skip(k));
    } else {
        assert(s.skip(0) =~= s);
    }
}

/// Trimming at the end drops exactly the trailing run of white space.
proof fn lemma_trim_end(s: Seq<char>, m: int)
    requires
        0 <= m <= s.len(),
        forall|j: int| m <= j < s.len() ==> is_white_space(s[j]),
        m > 0 ==> !is_white_space(s[m - 1]),
    ensures
        trim_end(s) == s.take(m),
    decreases s.len(),
{
    if m < s.len() {
        assert(is_white_space(s[s.len() - 1]));
        let rest = s.drop_last();
        assert forall|j: int| m <= j < rest.len() implies is_white_space(rest[j]) by {
            assert(rest[j] == s[j]);
        }
        lemma_trim_end(rest, m);
        assert(rest.take(m) =~= s.take(m));
    } else {
        assert(s.take(m) =~= s);
    }
}

/// Whether `c` is white space.
fn white_space(c: char) -> (r: bool)
    ensures
        r == is_white_space(c),
{
    let n: u32 = c as u32;
    (0x09 <= n && n <= 0x0D) || n == 0x20 || n == 0x85 || n == 0xA0 || n == 0x1680 || (0x2000 <= n
        && n <= 0x200A) || n == 0x2028 || n == 0x2029 || n == 0x202F || n == 0x205F || n == 0x3000
}

/// The index of the first `c` in `chars[from..to]`, or `to`.
fn find(chars: &Vec<char>, from: usize, to: usize, c: char) -> (i: usize)
    requires
        from <= to <= chars.len(),
    ensures
        from <= i <= to,
        i - from == first_index(chars@.subrange(from as int, to as int), c),
{
    let mut i: usize = from;
    while i < to && chars[i] != c
        invariant
            from <= i <= to <= chars.len(),
            forall|j: int| from <= j < i ==> chars@[j] != c,
        decreases to - i,
    {
        i += 1;
    }
    proof {
        lemma_first_index(chars@.subrange(from as int, to as int), c, i - from);
    }
    i
}

/// The bounds of `chars[from..to]` without the white space around it.
fn trim(chars: &Vec<char>, from: usize, to: usize) -> (bounds: (usize, usize))
    requires
        from <= to <= chars.len(),
    ensures
        from <= bounds.0 <= bounds.1 <= to,
        chars@.subrange(bounds.0 as int, bounds.1 as int) == trimmed(
            chars@.subrange(from as int, to as int),
        ),
{
    let mut a: usize = from;
    while a < to && white_space(chars[a])
        invariant
            from <= a <= to <= chars.len(),
            forall|j: int| from <= j < a ==> is_white_space(chars@[j]),
        decreases to - a,
    {
        a += 1;
    }
    let mut b: usize = to;
    while b > a && white_space(chars[b - 1])
        invariant
            a <= b <= to <= chars.len(),
            forall|j: int| b <= j < to ==> is_white_space(chars@[j]),
        decreases b,
    {
        b -= 1;
    }
    proof {
        let whole = chars@.subrange(from as int, to as int);
        lemma_trim_start(whole, a - from);
        let tail = whole.skip(a - from);
        assert(tail =~= chars@.subrange(a as int, to as int));
        lemma_trim_end(tail, b - a);
        assert(tail.take(b - a) =~= chars@.subrange(a as int, b as int));
    }
    (a, b)
}

/// The declarations of an inline CSS text: its segments between semicolons
/// that hold a colon, each split at its first colon and trimmed.
pub fn parse_declarations(css: &str) -> (pairs: Vec<(String, String)>)
    ensures
        pairs_model(pairs@) == declarations(css@),
{
    let chars: Vec<char> = collect_chars(css);
    let n: usize = chars.len();
    let mut pairs: Vec<(String, String)> = Vec::new();
    let mut start: usize = 0;
    let mut done: bool = false;
    proof {
        assert(chars@.skip(0) =~= chars@);
        assert(pairs_model(pairs@) =~= Seq::<Pair>::empty());
    }
    while !done
        invariant
            n == chars.len(),
            chars@ == css@,
            start <= n,
            !done ==> declarations(css@) == pairs_model(pairs@) + declarations(
                chars@.skip(start as int),
            ),
            done ==> declarations(css@) == pairs_model(pairs@),
        decreases n - start + (if done { 0int } else { 1int }),
    {
        let ghost rest = chars@.skip(start as int);
        let ghost parsed = pairs_model(pairs@);
        let end: usize = find(&chars, start, n, ';');
        let colon: usize = find(&chars, start, end, ':');
        proof {
            assert(chars@.subrange(start as int, n as int) =~= rest);
            assert(rest.take(end - start) =~= chars@.subrange(start as int, end as int));
        }
        let ghost segment = chars@.subrange(start as int, end as int);
        if colon < end {
            let (name_from, name_to) = trim(&chars, start, colon);
            let (value_from, value_to) = trim(&chars, colon + 1, end);
            let name = String::from_str(css.substring_char(name_from, name_to));
            let value = String::from_str(css.substring_char(value_from, value_to));
            proof {
                assert(segment.take(colon - start) =~= chars@.subrange(
                    start as int,
                    colon as int,
                ));
                assert(segment.skip(colon - start + 1) =~= chars@.subrange(
                    colon + 1,
                    end as int,
                ));
                assert(declaration_of(segment) == Some((name@, value@)));
            }
            pairs.push((name, value));
            proof {
                assert(pairs_model(pairs@) =~= parsed + seq![(name@, value@)]);
            }
        } else {
            proof {
                assert(declaration_of(segment) is None);
            }
        }
        if end < n {
            proof {
                assert(rest.skip(end - start + 1) =~= chars@.skip(end + 1));
                let head = match declaration_of(segment) {
                    Some(pair) => seq![pair],
                    None => Seq::<Pair>::empty(),
                };
                assert(declarations(rest) == head + declarations(chars@.skip(end + 1)));
                assert(parsed + (head + declarations(chars@.skip(end + 1))) =~= (parsed + head)
                    + declarations(chars@.skip(end + 1)));
                assert(pairs_model(pairs@) =~= parsed + head);
            }
            start = end + 1;
        } else {
            proof {
                let head = match declaration_of(segment) {
                    Some(pair) => seq![pair],
                    None => Seq::<Pair>::empty(),
                };
                assert(declarations(rest) == head);
                assert(pairs_model(pairs@) =~= parsed + head);
            }
            done = true;
        }
    }
    pairs
}

} // verus!

use vstd::prelude::*;

verus! {

/// The Unicode lower-case form of a string, as `str::to_lowercase` gives it.
pub uninterp spec fn lowercase(s: Seq<char>) -> Seq<char>;

/// Calls `str::to_lowercase`. Its result is named `lowercase` of the argument:
/// the mapping is fixed by Unicode's case tables and depends on nothing else.
/// Nothing is claimed of what the mapping is.
#[verifier::external_body]
fn to_lowercase(s: &str) -> (r: String)
    ensures
        r@ == lowercase(s@),
{
    s.to_lowercase()
}

/// The characters of a string.
fn chars_of(s: &str) -> (r: Vec<char>)
    ensures
        r@ == s@,
{
    let mut v: Vec<char> = Vec::new();
    for c in it: s.chars()
        invariant
            v@ == it.seq().take(it.index()),
            it.seq() == s@,
    {
        v.push(c);
    }
    v
}

/// `needle` occurs in `hay` at position `i`.
pub open spec fn occurs_at(hay: Seq<char>, needle: Seq<char>, i: int) -> bool {
    0 <= i && i + needle.len() <= hay.len() && hay.subrange(i, i + needle.len()) == needle
}

/// `needle` occurs somewhere in `hay` (the empty string occurs everywhere).
pub open spec fn contains_seq(hay: Seq<char>, needle: Seq<char>) -> bool {
    exists|i: int| occurs_at(hay, needle, i)
}

/// Whether `needle` occurs in `hay` at position `i`.
fn matches_at(hay: &Vec<char>, needle: &Vec<char>, i: usize) -> (r: bool)
    requires
        i + needle.len() <= hay.len(),
    ensures
        r == occurs_at(hay@, needle@, i as int),
{
    let mut j: usize = 0;
    while j < needle.len()
        invariant
            i + needle.len() <= hay.len(),
            j <= needle.len(),
            forall|k: int| 0 <= k < j ==> hay@[i + k] == needle@[k],
        decreases needle.len() - j,
    {
        if hay[i + j] != needle[j] {
            assert(hay@.subrange(i as int, i + needle.len())[j as int] != needle@[j as int]);
            return false;
        }
        j = j + 1;
    }
    assert(hay@.subrange(i as int, i + needle.len()) =~= needle@);
    true
}

/// Whether `needle` occurs in `hay`, character for character.
pub fn str_contains(hay: &str, needle: &str) -> (r: bool)
    ensures
        r == contains_seq(hay@, needle@),
{
    let h = chars_of(hay);
    let n = chars_of(needle);
    if n.len() > h.len() {
        assert forall|i: int| !occurs_at(hay@, needle@, i) by {}
        return false;
    }
    let last: usize = h.len() - n.len();
    let mut i: usize = 0;
    loop
        invariant
            h@ == hay@,
            n@ == needle@,
            last == h.len() - n.len(),
            n.len() <= h.len(),
            i <= last,
            forall|k: int| 0 <= k < i ==> !occurs_at(hay@, needle@, k),
        ensures
            forall|k: int| 0 <= k <= last ==> !occurs_at(hay@, needle@, k),
        decreases last - i,
    {
        if matches_at(&h, &n, i) {
            return true;
        }
        if i == last {
            break;
        }
        i = i + 1;
    }
    false
}

/// A port, named `name` (`None` when its name could not be read), matches
/// `pattern` when the pattern occurs in the name, ignoring case.
pub open spec fn port_matches(name: Option<String>, pattern: Seq<char>) -> bool {
    match name {
        Some(n) => contains_seq(lowercase(n@), lowercase(pattern)),
        None => false,
    }
}

/// The position of the first port whose (already lower-cased) name contains
/// the (already lower-cased) pattern.
pub fn first_port_containing(lowered_names: &Vec<Option<String>>, lowered_pattern: &str) -> (r: Option<usize>)
    ensures
        match r {
            Some(i) => {
                &&& i < lowered_names.len()
                &&& lowered_names@[i as int] is Some
                &&& contains_seq(lowered_names@[i as int]->0@, lowered_pattern@)
                &&& forall|j: int| 0 <= j < i ==> !(lowered_names@[j] is Some && contains_seq(lowered_names@[j]->0@, lowered_pattern@))
            },
            None => forall|j: int|
                0 <= j < lowered_names.len() ==> !(lowered_names@[j] is Some && contains_seq(
                    lowered_names@[j]->0@,
                    lowered_pattern@,
                )),
        },
{
    let mut i: usize = 0;
    while i < lowered_names.len()
        invariant
            i <= lowered_names.len(),
            forall|j: int| 0 <= j < i ==> !(lowered_names@[j] is Some && contains_seq(lowered_names@[j]->0@, lowered_pattern@)),
        decreases lowered_names.len() - i,
    {
        match &lowered_names[i] {
            Some(name) => {
                if str_contains(name.as_str(), lowered_pattern) {
                    return Some(i);
                }
            },
            None => {},
        }
        i = i + 1;
    }
    None
}

/// `r` is the position of the first port that matches `pattern`, or `None`
/// when no port does.
pub open spec fn is_first_match(names: Seq<Option<String>>, pattern: Seq<char>, r: Option<usize>) -> bool {
    match r {
        Some(i) => {
            &&& i < names.len()
            &&& port_matches(names[i as int], pattern)
            &&& forall|j: int| 0 <= j < i ==> !port_matches(names[j], pattern)
        },
        None => forall|j: int| 0 <= j < names.len() ==> !port_matches(names[j], pattern),
    }
}

/// Some port matches `pattern`.
pub open spec fn any_port_matches(names: Seq<Option<String>>, pattern: Seq<char>) -> bool {
    exists|j: int| 0 <= j < names.len() && port_matches(names[j], pattern)
}

/// There is only one first match.
pub proof fn lemma_first_match_unique(names: Seq<Option<String>>, pattern: Seq<char>, a: Option<usize>, b: Option<usize>)
    requires
        is_first_match(names, pattern, a),
        is_first_match(names, pattern, b),
    ensures
        a == b,
{
    match (a, b) {
        (Some(i), Some(j)) => {
            if i < j {
                assert(port_matches(names[i as int], pattern));
            } else if j < i {
                assert(port_matches(names[j as int], pattern));
            }
        },
        (Some(i), None) => {
            assert(port_matches(names[i as int], pattern));
        },
        (None, Some(j)) => {
            assert(port_matches(names[j as int], pattern));
        },
        (None, None) => {},
    }
}

/// The first port whose name contains `pattern`, ignoring case.
fn find_port_by_name(port_names: &Vec<Option<String>>, pattern: &str) -> (r: Option<usize>)
    ensures
        is_first_match(port_names@, pattern@, r),
{
    let lowered_pattern = to_lowercase(pattern);
    let mut lowered: Vec<Option<String>> = Vec::new();
    let mut i: usize = 0;
    while i < port_names.len()
        invariant
            i <= port_names.len(),
            lowered.len() == i,
            forall|j: int| 0 <= j < i ==> (#[trigger] lowered@[j] is Some <==> port_names@[j] is Some),
            forall|j: int| 0 <= j < i && lowered@[j] is Some ==> #[trigger] lowered@[j]->0@ == lowercase(port_names@[j]->0@),
        decreases port_names.len() - i,
    {
        match &port_names[i] {
            Some(name) => {
                lowered.push(Some(to_lowercase(name.as_str())));
            },
            None => {
                lowered.push(None);
            },
        }
        i = i + 1;
    }
    let r = first_port_containing(&lowered, lowered_pattern.as_str());
    proof {
        assert forall|j: int| 0 <= j < port_names.len() implies (port_matches(port_names@[j], pattern@) <==> (
        lowered@[j] is Some && contains_seq(lowered@[j]->0@, lowered_pattern@))) by {
            if lowered@[j] is Some {
                assert(lowered@[j]->0@ == lowercase(port_names@[j]->0@));
            }
        }
    }
    r
}

/// A decimal digit.
pub open spec fn is_digit(c: char) -> bool {
    '0' <= c <= '9'
}

/// The value of a string of decimal digits.
pub open spec fn decimal_value(s: Seq<char>) -> nat
    decreases s.len(),
{
    if s.len() == 0 {
        0
    } else {
        decimal_value(s.drop_last()) * 10 + ((s.last() as nat) - ('0' as nat)) as nat
    }
}

/// The port index a pattern names: a non-empty string of decimal digits.
pub open spec fn pattern_index(pattern: Seq<char>) -> Option<nat> {
    if pattern.len() > 0 && forall|i: int| 0 <= i < pattern.len() ==> is_digit(#[trigger] pattern[i]) {
        Some(decimal_value(pattern))
    } else {
        None
    }
}

/// The pattern names one of `n` ports by its index.
pub open spec fn names_an_index(pattern: Seq<char>, n: nat) -> bool {
    pattern_index(pattern) matches Some(i) && i < n
}

/// `min(min(v, l) * 10 + d, l) == min(v * 10 + d, l)`: capping the value
/// while reading digits does not change the capped result.
proof fn lemma_capped_digit(v: int, d: int, l: int)
    requires
        v >= 0,
        d >= 0,
        l >= 0,
    ensures
        (if v < l { v } else { l }) * 10 + d >= l ==> v * 10 + d >= l,
        v < l ==> (if v < l { v } else { l }) * 10 + d == v * 10 + d,
        v >= l ==> v * 10 + d >= l,
{
    assert(v >= l ==> v * 10 + d >= l) by (nonlinear_arith)
        requires
            v >= 0,
            d >= 0,
            l >= 0,
    ;
}

/// The index that `pattern` names when it is one of the `limit` ports.
fn parse_index(pattern: &str, limit: usize) -> (r: Option<usize>)
    ensures
        r == (if names_an_index(pattern@, limit as nat) {
            Some(pattern_index(pattern@)->0 as usize)
        } else {
            None::<usize>
        }),
{
    let chars = chars_of(pattern);
    if chars.len() == 0 {
        return None;
    }
    let ghost s = pattern@;
    // `acc` is the value of the digits read so far, capped at `limit`.
    let mut acc: u128 = 0;
    let mut i: usize = 0;
    assert(s.take(0) =~= Seq::<char>::empty());
    while i < chars.len()
        invariant
            chars@ == s,
            s == pattern@,
            i <= chars.len(),
            forall|k: int| 0 <= k < i ==> is_digit(#[trigger] s[k]),
            acc == (if decimal_value(s.take(i as int)) < limit { decimal_value(s.take(i as int)) } else { limit as nat }),
        decreases chars.len() - i,
    {
        let c = chars[i];
        if !('0' <= c && c <= '9') {
            assert(!is_digit(s[i as int]));
            return None;
        }
        let d: u128 = (c as u32 - '0' as u32) as u128;
        let ghost v = decimal_value(s.take(i as int));
        assert(s.take(i + 1).drop_last() =~= s.take(i as int));
        assert(s.take(i + 1).last() == c);
        assert(decimal_value(s.take(i + 1)) == v * 10 + d);
        proof {
            lemma_capped_digit(v as int, d as int, limit as int);
        }
        let next: u128 = acc * 10 + d;
        acc = if next < limit as u128 { next } else { limit as u128 };
        i = i + 1;
    }
    assert(s.take(s.len() as int) =~= s);
    if acc < limit as u128 {
        Some(acc as usize)
    } else {
        None
    }
}

/// The input port that `pattern` selects. A pattern of decimal digits that is
/// the index of one of the ports selects that port; any other pattern selects
/// the first port whose name contains it, ignoring case. Ports whose names
/// could not be read are passed as `None`; they can be selected by index only.
pub fn find_input_port(port_names: &Vec<Option<String>>, pattern: &str) -> (r: Option<usize>)
    ensures
        names_an_index(pattern@, port_names.len() as nat) ==> r == Some(pattern_index(pattern@)->0 as usize),
        !names_an_index(pattern@, port_names.len() as nat) ==> is_first_match(port_names@, pattern@, r),
{
    find_port(port_names, pattern)
}

/// The output port that `pattern` selects, by index or by name, as for
/// `find_input_port`.
pub fn find_output_port(port_names: &Vec<Option<String>>, pattern: &str) -> (r: Option<usize>)
    ensures
        names_an_index(pattern@, port_names.len() as nat) ==> r == Some(pattern_index(pattern@)->0 as usize),
        !names_an_index(pattern@, port_names.len() as nat) ==> is_first_match(port_names@, pattern@, r),
{
    find_port(port_names, pattern)
}

/// The port selected by index, or else by name.
fn find_port(port_names: &Vec<Option<String>>, pattern: &str) -> (r: Option<usize>)
    ensures
        names_an_index(pattern@, port_names.len() as nat) ==> r == Some(pattern_index(pattern@)->0 as usize),
        !names_an_index(pattern@, port_names.len() as nat) ==> is_first_match(port_names@, pattern@, r),
{
    match parse_index(pattern, port_names.len()) {
        Some(i) => Some(i),
        None => find_port_by_name(port_names, pattern),
    }
}

/// The pattern by which the DJ application's port is found.
pub open spec fn input_port_pattern() -> Seq<char> {
    "mixxx_midi_clock"@
}

/// The patterns by which the drum machine's port is found, in order of preference.
pub open spec fn output_port_patterns() -> (Seq<char>, Seq<char>) {
    ("Focusrite-Novation"@, "Circuit Rhythm"@)
}

/// Finds the DJ application's input port: the first whose name contains
/// "mixxx_midi_clock", ignoring case.
pub fn auto_discover_input(port_names: &Vec<Option<String>>) -> (r: Option<usize>)
    ensures
        is_first_match(port_names@, input_port_pattern(), r),
{
    find_port_by_name(port_names, "mixxx_midi_clock")
}

/// Finds the drum machine's output port: the first whose name contains
/// "Focusrite-Novation", or failing that the first whose name contains
/// "Circuit Rhythm", ignoring case.
pub fn auto_discover_output(port_names: &Vec<Option<String>>) -> (r: Option<usize>)
    ensures
        any_port_matches(port_names@, output_port_patterns().0) ==> is_first_match(
            port_names@,
            output_port_patterns().0,
            r,
        ),
        !any_port_matches(port_names@, output_port_patterns().0) ==> is_first_match(
            port_names@,
            output_port_patterns().1,
            r,
        ),
{
    let first = find_port_by_name(port_names, "Focusrite-Novation");
    if first.is_some() {
        return first;
    }
    find_port_by_name(port_names, "Circuit Rhythm")
}

} // verus!

//! The environment a new Windows shell starts with.
//!
//! The persistent system and user variables (as the registry holds them) are
//! laid over the inherited environment: names compare without regard to
//! ASCII case, a user `Path` is appended to the system one, and values stored
//! as expandable have their `%NAME%` references replaced, a bounded number of
//! times, from the merged raw values. Reading the registry is left to the
//! caller; everything here is a function of the values handed in.

use vstd::prelude::*;
use crate::text::{ascii_ci_eq, ascii_lower, chars_of, eq_ignore_ascii_case, string_from_chars, utf16_lossy, utf16_lossy_decoding};

verus! {

/// How many rounds of `%NAME%` replacement an expandable value gets.
pub const MAX_EXPANSION_PASSES: usize = 16;

/// An expansion that grows beyond this many UTF-8 bytes is not taken.
pub const MAX_EXPANDED_BYTES: usize = 32768;

pub const PERCENT: char = '%';

/// A name, its value, and whether the value holds `%NAME%` references.
pub type EnvEntry = (Seq<char>, Seq<char>, bool);

/// One persistent variable as stored by the system.
#[derive(Debug)]
pub struct PersistentEnvironmentValue {
    name: String,
    value: String,
    expandable: bool,
}

impl View for PersistentEnvironmentValue {
    type V = EnvEntry;

    closed spec fn view(&self) -> EnvEntry {
        (self.name@, self.value@, self.expandable)
    }
}

impl PersistentEnvironmentValue {
    pub fn new(name: &str, value: &str, expandable: bool) -> (r: Self)
        ensures
            r@ == (name@, value@, expandable),
    {
        PersistentEnvironmentValue { name: name.to_owned(), value: value.to_owned(), expandable }
    }

    pub fn duplicate(&self) -> (r: Self)
        ensures
            r@ == self@,
    {
        PersistentEnvironmentValue { name: self.name.clone(), value: self.value.clone(), expandable: self.expandable }
    }
}

impl Clone for PersistentEnvironmentValue {
    fn clone(&self) -> (r: Self)
        ensures
            r@ == self@,
    {
        self.duplicate()
    }
}

/// The entries' views.
pub open spec fn entries_of(values: Seq<PersistentEnvironmentValue>) -> Seq<EnvEntry> {
    Seq::new(values.len(), |i: int| values[i]@)
}

/// The texts of a list of name-value string pairs.
pub open spec fn pairs_of(pairs: Seq<(String, String)>) -> Seq<(Seq<char>, Seq<char>)> {
    Seq::new(pairs.len(), |i: int| (pairs[i].0@, pairs[i].1@))
}

pub open spec fn entry_names(env: Seq<EnvEntry>) -> Seq<Seq<char>> {
    Seq::new(env.len(), |i: int| env[i].0)
}

pub open spec fn pair_names(env: Seq<(Seq<char>, Seq<char>)>) -> Seq<Seq<char>> {
    Seq::new(env.len(), |i: int| env[i].0)
}

/// The index of the first name equal to `name` up to ASCII case; the length
/// of `names` when there is none.
pub open spec fn first_named(names: Seq<Seq<char>>, name: Seq<char>) -> nat
    decreases names.len(),
{
    if names.len() == 0 {
        0
    } else if ascii_ci_eq(names[0], name) {
        0
    } else {
        1 + first_named(names.drop_first(), name)
    }
}

/// The value of the last pair whose name equals `name` up to ASCII case (a
/// later pair overrides an earlier one, as in a map filled in order).
pub open spec fn lookup_last(env: Seq<(Seq<char>, Seq<char>)>, name: Seq<char>) -> Option<Seq<char>>
    decreases env.len(),
{
    if env.len() == 0 {
        None
    } else if ascii_ci_eq(env.last().0, name) {
        Some(env.last().1)
    } else {
        lookup_last(env.drop_last(), name)
    }
}

/// The index of the first `c` in `v`; the length of `v` when there is none.
pub open spec fn position_of(v: Seq<char>, c: char) -> nat
    decreases v.len(),
{
    if v.len() == 0 {
        0
    } else if v[0] == c {
        0
    } else {
        1 + position_of(v.drop_first(), c)
    }
}

/// What a `%NAME%` reference becomes: `%%` gives one `%`, a known name its
/// value, and an unknown one stays as it was.
pub open spec fn reference_text(name: Seq<char>, env: Seq<(Seq<char>, Seq<char>)>) -> Seq<char> {
    if name.len() == 0 {
        seq!['%']
    } else {
        match lookup_last(env, name) {
            Some(value) => value,
            None => seq!['%'] + name + seq!['%'],
        }
    }
}

/// One left-to-right pass over `v` replacing each `%NAME%`; a `%` without a
/// closing one is kept with the rest of the text.
pub open spec fn replace_refs(v: Seq<char>, env: Seq<(Seq<char>, Seq<char>)>) -> Seq<char>
    decreases v.len(),
{
    let s = position_of(v, '%');
    if s >= v.len() {
        v
    } else {
        let after = v.subrange(s as int + 1, v.len() as int);
        let e = position_of(after, '%');
        if e >= after.len() {
            v
        } else {
            v.subrange(0, s as int) + reference_text(after.subrange(0, e as int), env) + replace_refs(
                after.subrange(e as int + 1, after.len() as int),
                env,
            )
        }
    }
}

/// The length in UTF-8 bytes, as `str::len` reports it.
pub open spec fn utf8_len(v: Seq<char>) -> nat {
    (vstd::utf8::encode_utf8(v).len() as usize) as nat
}

/// Up to `passes` rounds of replacement, stopping once a round changes
/// nothing or its result would exceed `MAX_EXPANDED_BYTES`.
pub open spec fn expand_passes(v: Seq<char>, env: Seq<(Seq<char>, Seq<char>)>, passes: nat) -> Seq<char>
    decreases passes,
{
    if passes == 0 {
        v
    } else {
        let next = replace_refs(v, env);
        if next == v || utf8_len(next) > MAX_EXPANDED_BYTES {
            v
        } else {
            expand_passes(next, env, (passes - 1) as nat)
        }
    }
}

pub open spec fn expand_value(v: Seq<char>, env: Seq<(Seq<char>, Seq<char>)>) -> Seq<char> {
    expand_passes(v, env, MAX_EXPANSION_PASSES as nat)
}

/// `v` replaces the first entry of its name, or is added at the end.
pub open spec fn set_entry(env: Seq<EnvEntry>, v: EnvEntry) -> Seq<EnvEntry> {
    let i = first_named(entry_names(env), v.0);
    if i < env.len() {
        env.update(i as int, v)
    } else {
        env.push(v)
    }
}

/// Two `Path` values joined with `;` (no separator next to an empty one).
pub open spec fn join_path(a: Seq<char>, b: Seq<char>) -> Seq<char> {
    if a.len() > 0 && b.len() > 0 {
        a + seq![';'] + b
    } else {
        a + b
    }
}

/// A user `Path` extends the existing one (which keeps its name); without
/// one it is added under the name `Path`.
pub open spec fn append_path_entry(env: Seq<EnvEntry>, v: EnvEntry) -> Seq<EnvEntry> {
    let i = first_named(entry_names(env), "Path"@);
    if i < env.len() {
        env.update(i as int, (env[i as int].0, join_path(env[i as int].1, v.1), env[i as int].2 || v.2))
    } else {
        set_entry(env, ("Path"@, v.1, v.2))
    }
}

pub open spec fn apply_system(env: Seq<EnvEntry>, values: Seq<EnvEntry>) -> Seq<EnvEntry>
    decreases values.len(),
{
    if values.len() == 0 {
        env
    } else {
        set_entry(apply_system(env, values.drop_last()), values.last())
    }
}

pub open spec fn apply_user_value(env: Seq<EnvEntry>, v: EnvEntry) -> Seq<EnvEntry> {
    if ascii_ci_eq(v.0, "Path"@) {
        append_path_entry(env, v)
    } else {
        set_entry(env, v)
    }
}

pub open spec fn apply_user(env: Seq<EnvEntry>, values: Seq<EnvEntry>) -> Seq<EnvEntry>
    decreases values.len(),
{
    if values.len() == 0 {
        env
    } else {
        apply_user_value(apply_user(env, values.drop_last()), values.last())
    }
}

pub open spec fn inherited_entries(inherited: Seq<(Seq<char>, Seq<char>)>) -> Seq<EnvEntry> {
    Seq::new(inherited.len(), |i: int| (inherited[i].0, inherited[i].1, false))
}

pub open spec fn raw_pairs(env: Seq<EnvEntry>) -> Seq<(Seq<char>, Seq<char>)> {
    Seq::new(env.len(), |i: int| (env[i].0, env[i].1))
}

/// The merged environment: inherited values, then the system values, then
/// the user values laid over them; expandable values expanded against the
/// merged raw values.
pub open spec fn merged_environment(
    system: Seq<EnvEntry>,
    user: Seq<EnvEntry>,
    inherited: Seq<(Seq<char>, Seq<char>)>,
) -> Seq<(Seq<char>, Seq<char>)> {
    let merged = apply_user(apply_system(inherited_entries(inherited), system), user);
    let raw = raw_pairs(merged);
    Seq::new(
        merged.len(),
        |i: int| (merged[i].0, if merged[i].2 { expand_value(merged[i].1, raw) } else { merged[i].1 }),
    )
}

/// `(name, value)` replaces the first pair of its name, or is added.
pub open spec fn set_pair(env: Seq<(Seq<char>, Seq<char>)>, name: Seq<char>, value: Seq<char>) -> Seq<(Seq<char>, Seq<char>)> {
    let i = first_named(pair_names(env), name);
    if i < env.len() {
        env.update(i as int, (name, value))
    } else {
        env.push((name, value))
    }
}

pub open spec fn apply_overrides(env: Seq<(Seq<char>, Seq<char>)>, overrides: Seq<(Seq<char>, Seq<char>)>) -> Seq<(Seq<char>, Seq<char>)>
    decreases overrides.len(),
{
    if overrides.len() == 0 {
        env
    } else {
        let prior = apply_overrides(env, overrides.drop_last());
        set_pair(prior, overrides.last().0, overrides.last().1)
    }
}

proof fn lemma_first_named_is(names: Seq<Seq<char>>, name: Seq<char>, i: int)
    requires
        0 <= i <= names.len(),
        forall|j: int| 0 <= j < i ==> !ascii_ci_eq(#[trigger] names[j], name),
        i == names.len() || ascii_ci_eq(names[i], name),
    ensures
        first_named(names, name) == i,
    decreases i,
{
    if i > 0 {
        let rest = names.drop_first();
        assert forall|j: int| 0 <= j < i - 1 implies !ascii_ci_eq(#[trigger] rest[j], name) by {
            assert(rest[j] == names[j + 1]);
        }
        if i < names.len() {
            assert(rest[i - 1] == names[i]);
        }
        lemma_first_named_is(rest, name, i - 1);
        assert(!ascii_ci_eq(names[0], name));
    }
}

proof fn lemma_first_named_bound(names: Seq<Seq<char>>, name: Seq<char>)
    ensures
        first_named(names, name) <= names.len(),
        first_named(names, name) < names.len() ==> ascii_ci_eq(names[first_named(names, name) as int], name),
    decreases names.len(),
{
    if names.len() > 0 && !ascii_ci_eq(names[0], name) {
        lemma_first_named_bound(names.drop_first(), name);
        let k = first_named(names.drop_first(), name);
        if k < names.len() - 1 {
            assert(names.drop_first()[k as int] == names[k as int + 1]);
        }
    }
}

proof fn lemma_position_is(v: Seq<char>, c: char, i: int)
    requires
        0 <= i <= v.len(),
        forall|j: int| 0 <= j < i ==> #[trigger] v[j] != c,
        i == v.len() || v[i] == c,
    ensures
        position_of(v, c) == i,
    decreases i,
{
    if i > 0 {
        let rest = v.drop_first();
        assert forall|j: int| 0 <= j < i - 1 implies #[trigger] rest[j] != c by {
            assert(rest[j] == v[j + 1]);
        }
        if i < v.len() {
            assert(rest[i - 1] == v[i]);
        }
        lemma_position_is(rest, c, i - 1);
        assert(v[0] != c);
    }
}

fn names_equal(a: &String, b: &str) -> (r: bool)
    ensures
        r == ascii_ci_eq(a@, b@),
{
    eq_ignore_ascii_case(a.as_str(), b)
}

/// The index of the first entry named `name`, up to ASCII case.
fn find_entry(env: &Vec<PersistentEnvironmentValue>, name: &str) -> (r: usize)
    ensures
        r == first_named(entry_names(entries_of(env@)), name@),
        r <= env@.len(),
{
    let ghost names = entry_names(entries_of(env@));
    let mut i: usize = 0;
    while i < env.len()
        invariant
            i <= env@.len(),
            names == entry_names(entries_of(env@)),
            forall|j: int| 0 <= j < i ==> !ascii_ci_eq(#[trigger] names[j], name@),
        decreases env@.len() - i,
    {
        if names_equal(&env[i].name, name) {
            proof {
                assert(names[i as int] == env@[i as int]@.0);
                lemma_first_named_is(names, name@, i as int);
            }
            return i;
        }
        assert(names[i as int] == env@[i as int]@.0);
        i = i + 1;
    }
    proof {
        lemma_first_named_is(names, name@, i as int);
    }
    i
}

/// Sets `value` in the environment: it replaces the first entry of its name,
/// or is added at the end.
pub fn set_environment_value(environment: &mut Vec<PersistentEnvironmentValue>, value: PersistentEnvironmentValue)
    ensures
        entries_of(final(environment)@) == set_entry(entries_of(old(environment)@), value@),
{
    let i = find_entry(environment, value.name.as_str());
    let ghost v = value@;
    if i < environment.len() {
        environment.set(i, value);
    } else {
        environment.push(value);
    }
    assert(entries_of(environment@) =~= set_entry(entries_of(old(environment)@), v));
}

/// Adds a user `Path` value to the existing `Path` entry.
pub fn append_path_value(environment: &mut Vec<PersistentEnvironmentValue>, value: PersistentEnvironmentValue)
    ensures
        entries_of(final(environment)@) == append_path_entry(entries_of(old(environment)@), value@),
{
    let i = find_entry(environment, "Path");
    let ghost v = value@;
    if i < environment.len() {
        let existing = environment[i].duplicate();
        let mut joined = existing.value;
        if !joined.as_str().is_empty() && !value.value.as_str().is_empty() {
            joined.append(";");
            proof {
                reveal_strlit(";");
            }
        }
        joined.append(value.value.as_str());
        let entry = PersistentEnvironmentValue {
            name: existing.name,
            value: joined,
            expandable: existing.expandable || value.expandable,
        };
        proof {
            let old_entries = entries_of(old(environment)@);
            assert(old_entries[i as int] == old(environment)@[i as int]@);
            if old_entries[i as int].1.len() > 0 && v.1.len() > 0 {
                assert(entry@.1 =~= join_path(old_entries[i as int].1, v.1));
            } else {
                assert(entry@.1 =~= join_path(old_entries[i as int].1, v.1));
            }
        }
        environment.set(i, entry);
        assert(entries_of(environment@) =~= append_path_entry(entries_of(old(environment)@), v));
    } else {
        let renamed = PersistentEnvironmentValue {
            name: "Path".to_owned(),
            value: value.value,
            expandable: value.expandable,
        };
        set_environment_value(environment, renamed);
    }
}

/// The value of the last pair named `name` (up to ASCII case).
fn lookup_raw(env: &Vec<(String, String)>, name: &str) -> (r: Option<String>)
    ensures
        match lookup_last(pairs_of(env@), name@) {
            Some(value) => r matches Some(s) && s@ == value,
            None => r is None,
        },
{
    let ghost all = pairs_of(env@);
    let mut i: usize = env.len();
    assert(all.take(i as int) =~= all);
    while i > 0
        invariant
            i <= env@.len(),
            all == pairs_of(env@),
            lookup_last(all, name@) == lookup_last(all.take(i as int), name@),
        decreases i,
    {
        let ghost prefix = all.take(i as int);
        assert(prefix.last() == all[i - 1]);
        assert(prefix.drop_last() =~= all.take(i - 1));
        if eq_ignore_ascii_case(env[i - 1].0.as_str(), name) {
            return Some(env[i - 1].1.clone());
        }
        i = i - 1;
    }
    None
}

/// The first position at or after `from` holding `%`; `v.len()` if none.
fn find_percent(v: &[char], from: usize) -> (r: usize)
    requires
        from <= v@.len(),
    ensures
        from <= r <= v@.len(),
        r - from == position_of(v@.subrange(from as int, v@.len() as int), '%'),
{
    let ghost sub = v@.subrange(from as int, v@.len() as int);
    let mut i = from;
    while i < v.len()
        invariant
            from <= i <= v@.len(),
            sub == v@.subrange(from as int, v@.len() as int),
            forall|j: int| 0 <= j < i - from ==> #[trigger] sub[j] != '%',
        decreases v@.len() - i,
    {
        if v[i] == PERCENT {
            proof {
                assert(sub[i - from] == v@[i as int]);
                lemma_position_is(sub, '%', i - from);
            }
            return i;
        }
        assert(sub[i - from] == v@[i as int]);
        i = i + 1;
    }
    proof {
        lemma_position_is(sub, '%', i - from);
    }
    i
}

fn push_chars(out: &mut Vec<char>, v: &[char], from: usize, to: usize)
    requires
        from <= to <= v@.len(),
    ensures
        final(out)@ == old(out)@ + v@.subrange(from as int, to as int),
{
    let mut k = from;
    while k < to
        invariant
            from <= k <= to,
            to <= v@.len(),
            out@ == old(out)@ + v@.subrange(from as int, k as int),
        decreases to - k,
    {
        out.push(v[k]);
        k = k + 1;
        assert(v@.subrange(from as int, k as int) =~= v@.subrange(from as int, k - 1).push(v@[k - 1]));
    }
}

/// One pass of `%NAME%` replacement over `value`.
#[verifier::rlimit(40)]
pub fn replace_environment_references(value: &[char], environment: &Vec<(String, String)>) -> (r: Vec<char>)
    ensures
        r@ == replace_refs(value@, pairs_of(environment@)),
{
    let ghost env = pairs_of(environment@);
    let len = value.len();
    let mut result: Vec<char> = Vec::new();
    let mut pos: usize = 0;
    assert(value@.subrange(0, len as int) =~= value@);
    loop
        invariant
            pos <= len,
            len == value@.len(),
            env == pairs_of(environment@),
            result@ + replace_refs(value@.subrange(pos as int, len as int), env) == replace_refs(value@, env),
        decreases len - pos,
    {
        let ghost rem = value@.subrange(pos as int, len as int);
        let start = find_percent(value, pos);
        if start == len {
            push_chars(&mut result, value, pos, len);
            return result;
        }
        let end = find_percent(value, start + 1);
        proof {
            let s = (start - pos) as int;
            let after = rem.subrange(s + 1, rem.len() as int);
            assert(after =~= value@.subrange(start + 1, len as int));
        }
        if end == len {
            push_chars(&mut result, value, pos, len);
            return result;
        }
        push_chars(&mut result, value, pos, start);
        let name_chars = slice_chars(value, start + 1, end);
        if name_chars.len() == 0 {
            result.push(PERCENT);
        } else {
            let name = string_from_chars(name_chars.as_slice());
            match lookup_raw(environment, name.as_str()) {
                Some(found) => {
                    let found_chars = chars_of(found.as_str());
                    push_chars(&mut result, found_chars.as_slice(), 0, found_chars.len());
                    assert(found_chars@.subrange(0, found_chars@.len() as int) =~= found_chars@);
                },
                None => {
                    result.push(PERCENT);
                    push_chars(&mut result, name_chars.as_slice(), 0, name_chars.len());
                    result.push(PERCENT);
                    assert(name_chars@.subrange(0, name_chars@.len() as int) =~= name_chars@);
                },
            }
        }
        proof {
            let s = (start - pos) as int;
            let after = rem.subrange(s + 1, rem.len() as int);
            let e = (end - start - 1) as int;
            assert(after.subrange(0, e) =~= value@.subrange(start + 1, end as int));
            assert(after.subrange(e + 1, after.len() as int) =~= value@.subrange(end + 1, len as int));
            assert(rem.subrange(0, s) =~= value@.subrange(pos as int, start as int));
        }
        pos = end + 1;
    }
}

fn slice_chars(v: &[char], from: usize, to: usize) -> (r: Vec<char>)
    requires
        from <= to <= v@.len(),
    ensures
        r@ == v@.subrange(from as int, to as int),
{
    let mut out: Vec<char> = Vec::new();
    push_chars(&mut out, v, from, to);
    out
}

fn same_chars(a: &[char], b: &[char]) -> (r: bool)
    ensures
        r == (a@ == b@),
{
    if a.len() != b.len() {
        return false;
    }
    let mut i: usize = 0;
    while i < a.len()
        invariant
            i <= a@.len(),
            a@.len() == b@.len(),
            forall|j: int| 0 <= j < i ==> a@[j] == b@[j],
        decreases a@.len() - i,
    {
        if a[i] != b[i] {
            return false;
        }
        i = i + 1;
    }
    assert(a@ =~= b@);
    true
}

/// Replaces `%NAME%` references in `value` from `environment` (name-value
/// pairs; a later pair wins), repeating while a pass changes something, at
/// most `MAX_EXPANSION_PASSES` times and never beyond `MAX_EXPANDED_BYTES`.
pub fn expand_environment_value(value: &str, environment: &Vec<(String, String)>) -> (r: String)
    ensures
        r@ == expand_value(value@, pairs_of(environment@)),
{
    let ghost env = pairs_of(environment@);
    let mut expanded: String = value.to_owned();
    let mut pass: usize = 0;
    while pass < MAX_EXPANSION_PASSES
        invariant
            pass <= MAX_EXPANSION_PASSES,
            env == pairs_of(environment@),
            expand_value(value@, env) == expand_passes(expanded@, env, (MAX_EXPANSION_PASSES - pass) as nat),
        decreases MAX_EXPANSION_PASSES - pass,
    {
        let current = chars_of(expanded.as_str());
        let next_chars = replace_environment_references(current.as_slice(), environment);
        let next = string_from_chars(next_chars.as_slice());
        if same_chars(next_chars.as_slice(), current.as_slice()) || next.as_str().len() > MAX_EXPANDED_BYTES {
            return expanded;
        }
        proof {
            assert(next_chars@ != current@);
        }
        expanded = next;
        pass = pass + 1;
    }
    expanded
}

/// The value of the first variable named `name` (up to ASCII case).
pub fn environment_value<'a>(environment: &'a [(String, String)], name: &str) -> (r: Option<&'a str>)
    ensures
        ({
            let i = first_named(pair_names(pairs_of(environment@)), name@);
            if i < environment@.len() {
                r matches Some(v) && v@ == environment@[i as int].1@
            } else {
                r is None
            }
        }),
        match r {
            Some(v) => env_lookup(pairs_of(environment@), name@) == Some(v@),
            None => env_lookup(pairs_of(environment@), name@) is None,
        },
{
    let ghost names = pair_names(pairs_of(environment@));
    let mut i: usize = 0;
    while i < environment.len()
        invariant
            i <= environment@.len(),
            names == pair_names(pairs_of(environment@)),
            forall|j: int| 0 <= j < i ==> !ascii_ci_eq(#[trigger] names[j], name@),
        decreases environment@.len() - i,
    {
        assert(names[i as int] == environment@[i as int].0@);
        if eq_ignore_ascii_case(environment[i].0.as_str(), name) {
            proof {
                lemma_first_named_is(names, name@, i as int);
            }
            return Some(environment[i].1.as_str());
        }
        i = i + 1;
    }
    proof {
        lemma_first_named_is(names, name@, i as int);
    }
    None
}

/// Lays explicitly configured variables over a refreshed environment: each
/// override replaces the first variable of its name (up to ASCII case), or is
/// added at the end.
pub fn merge_environment_overrides(base: Vec<(String, String)>, overrides: Vec<(String, String)>) -> (r: Vec<(String, String)>)
    ensures
        pairs_of(r@) == apply_overrides(pairs_of(base@), pairs_of(overrides@)),
{
    let mut base = base;
    let ghost start = pairs_of(base@);
    let ghost all = pairs_of(overrides@);
    let mut k: usize = 0;
    while k < overrides.len()
        invariant
            k <= overrides@.len(),
            all == pairs_of(overrides@),
            pairs_of(base@) == apply_overrides(start, all.take(k as int)),
        decreases overrides@.len() - k,
    {
        let name = overrides[k].0.clone();
        let value = overrides[k].1.clone();
        let ghost prior = pairs_of(base@);
        let ghost names = pair_names(prior);
        let mut i: usize = 0;
        while i < base.len()
            invariant
                i <= base@.len(),
                prior == pairs_of(base@),
                names == pair_names(prior),
                forall|j: int| 0 <= j < i ==> !ascii_ci_eq(#[trigger] names[j], name@),
            ensures
                i <= base@.len(),
                prior == pairs_of(base@),
                forall|j: int| 0 <= j < i ==> !ascii_ci_eq(#[trigger] names[j], name@),
                i == base@.len() || ascii_ci_eq(names[i as int], name@),
            decreases base@.len() - i,
        {
            assert(names[i as int] == base@[i as int].0@);
            if eq_ignore_ascii_case(base[i].0.as_str(), name.as_str()) {
                break;
            }
            i = i + 1;
        }
        proof {
            lemma_first_named_is(names, name@, i as int);
            assert(all.take(k + 1).drop_last() =~= all.take(k as int));
            assert(all.take(k + 1).last() == all[k as int]);
        }
        if i < base.len() {
            base.set(i, (name, value));
        } else {
            base.push((name, value));
        }
        assert(pairs_of(base@) =~= set_pair(prior, all[k as int].0, all[k as int].1));
        k = k + 1;
    }
    assert(all.take(overrides@.len() as int) =~= all);
    base
}

/// The persistent system and user variables laid over the inherited
/// environment, with expandable values expanded against the merged values.
pub fn merge_persistent_environment(
    system: Vec<PersistentEnvironmentValue>,
    user: Vec<PersistentEnvironmentValue>,
    inherited: Vec<(String, String)>,
) -> (r: Vec<(String, String)>)
    ensures
        pairs_of(r@) == merged_environment(entries_of(system@), entries_of(user@), pairs_of(inherited@)),
{
    let ghost inherited_view = inherited_entries(pairs_of(inherited@));
    let mut merged: Vec<PersistentEnvironmentValue> = Vec::new();
    let mut i: usize = 0;
    while i < inherited.len()
        invariant
            i <= inherited@.len(),
            inherited_view == inherited_entries(pairs_of(inherited@)),
            entries_of(merged@) == inherited_view.take(i as int),
            merged@.len() == i,
        decreases inherited@.len() - i,
    {
        let entry = PersistentEnvironmentValue::new(inherited[i].0.as_str(), inherited[i].1.as_str(), false);
        assert(entry@ == inherited_view[i as int]);
        let ghost before = merged@;
        merged.push(entry);
        assert forall|x: int| 0 <= x <= i implies #[trigger] entries_of(merged@)[x] == inherited_view[x] by {
            if x < i {
                assert(merged@[x] == before[x]);
                assert(entries_of(before)[x] == inherited_view.take(i as int)[x]);
            }
        }
        assert(entries_of(merged@) =~= inherited_view.take(i + 1));
        i = i + 1;
    }
    assert(inherited_view.take(inherited@.len() as int) =~= inherited_view);

    let ghost system_view = entries_of(system@);
    let mut k: usize = 0;
    while k < system.len()
        invariant
            k <= system@.len(),
            system_view == entries_of(system@),
            entries_of(merged@) == apply_system(inherited_view, system_view.take(k as int)),
        decreases system@.len() - k,
    {
        assert(system_view.take(k + 1).drop_last() =~= system_view.take(k as int));
        set_environment_value(&mut merged, system[k].duplicate());
        k = k + 1;
    }
    assert(system_view.take(system@.len() as int) =~= system_view);

    let ghost after_system = apply_system(inherited_view, system_view);
    let ghost user_view = entries_of(user@);
    let mut u: usize = 0;
    while u < user.len()
        invariant
            u <= user@.len(),
            user_view == entries_of(user@),
            entries_of(merged@) == apply_user(after_system, user_view.take(u as int)),
        decreases user@.len() - u,
    {
        assert(user_view.take(u + 1).drop_last() =~= user_view.take(u as int));
        let value = user[u].duplicate();
        if eq_ignore_ascii_case(value.name.as_str(), "Path") {
            append_path_value(&mut merged, value);
        } else {
            set_environment_value(&mut merged, value);
        }
        u = u + 1;
    }
    assert(user_view.take(user@.len() as int) =~= user_view);

    let ghost final_entries = entries_of(merged@);
    let mut raw: Vec<(String, String)> = Vec::new();
    let mut j: usize = 0;
    while j < merged.len()
        invariant
            j <= merged@.len(),
            final_entries == entries_of(merged@),
            pairs_of(raw@) == raw_pairs(final_entries).take(j as int),
            raw@.len() == j,
        decreases merged@.len() - j,
    {
        assert(final_entries[j as int] == merged@[j as int]@);
        let ghost before = raw@;
        raw.push((merged[j].name.clone(), merged[j].value.clone()));
        assert forall|x: int| 0 <= x <= j implies #[trigger] pairs_of(raw@)[x] == raw_pairs(final_entries)[x] by {
            if x < j {
                assert(raw@[x] == before[x]);
                assert(pairs_of(before)[x] == raw_pairs(final_entries).take(j as int)[x]);
            }
        }
        assert(pairs_of(raw@) =~= raw_pairs(final_entries).take(j + 1));
        j = j + 1;
    }
    assert(raw_pairs(final_entries).take(merged@.len() as int) =~= raw_pairs(final_entries));

    let ghost expected = merged_environment(system_view, user_view, pairs_of(inherited@));
    let mut out: Vec<(String, String)> = Vec::new();
    let mut m: usize = 0;
    while m < merged.len()
        invariant
            m <= merged@.len(),
            final_entries == entries_of(merged@),
            pairs_of(raw@) == raw_pairs(final_entries),
            expected == merged_environment(system_view, user_view, pairs_of(inherited@)),
            final_entries == apply_user(apply_system(inherited_entries(pairs_of(inherited@)), system_view), user_view),
            pairs_of(out@) == expected.take(m as int),
            out@.len() == m,
        decreases merged@.len() - m,
    {
        assert(final_entries[m as int] == merged@[m as int]@);
        let value = if merged[m].expandable {
            expand_environment_value(merged[m].value.as_str(), &raw)
        } else {
            merged[m].value.clone()
        };
        let ghost before = out@;
        out.push((merged[m].name.clone(), value));
        assert forall|x: int| 0 <= x <= m implies #[trigger] pairs_of(out@)[x] == expected[x] by {
            if x < m {
                assert(out@[x] == before[x]);
                assert(pairs_of(before)[x] == expected.take(m as int)[x]);
            }
        }
        assert(pairs_of(out@) =~= expected.take(m + 1));
        m = m + 1;
    }
    assert(expected.take(merged@.len() as int) =~= expected);
    out
}

/// The environment for a new Windows session: the persistent system and
/// user variables that could be read (`None` where reading failed), laid
/// over the inherited environment; the inherited environment alone when
/// neither could be read.
pub fn refreshed_windows_environment(
    system: Option<Vec<PersistentEnvironmentValue>>,
    user: Option<Vec<PersistentEnvironmentValue>>,
    inherited: Vec<(String, String)>,
) -> (r: Vec<(String, String)>)
    ensures
        (system is None && user is None) ==> r@ == inherited@,
        !(system is None && user is None) ==> pairs_of(r@) == merged_environment(
            match system {
                Some(v) => entries_of(v@),
                None => Seq::empty(),
            },
            match user {
                Some(v) => entries_of(v@),
                None => Seq::empty(),
            },
            pairs_of(inherited@),
        ),
{
    if system.is_none() && user.is_none() {
        return inherited;
    }
    let system = match system {
        Some(values) => values,
        None => Vec::new(),
    };
    let user = match user {
        Some(values) => values,
        None => Vec::new(),
    };
    proof {
        assert(entries_of(Seq::<PersistentEnvironmentValue>::empty()) =~= Seq::empty());
    }
    merge_persistent_environment(system, user, inherited)
}

/// The registry type of a string value.
pub const REG_SZ: u32 = 1;
/// The registry type of a string value with `%NAME%` references.
pub const REG_EXPAND_SZ: u32 = 2;

/// Why a registry value could not be read as an environment string.
#[derive(Clone, Copy, Debug, PartialEq, Eq, Structural)]
pub enum RegistryValueError {
    /// The data is not a whole number of UTF-16 units.
    OddLength,
}

impl RegistryValueError {
    pub fn message(&self) -> (r: &'static str)
        ensures
            r@ == "Windows registry environment string has an odd byte length"@,
    {
        "Windows registry environment string has an odd byte length"
    }
}

/// The little-endian UTF-16 units of `data` (whole pairs only).
pub open spec fn le_units(data: Seq<u8>) -> Seq<u16> {
    Seq::new(data.len() / 2, |i: int| (data[2 * i] + data[2 * i + 1] * 256) as u16)
}

/// How many units come before the first NUL (all of them if none is).
pub open spec fn nul_position(units: Seq<u16>) -> nat
    decreases units.len(),
{
    if units.len() == 0 {
        0
    } else if units[0] == 0 {
        0
    } else {
        1 + nul_position(units.drop_first())
    }
}

proof fn lemma_nul_position_is(units: Seq<u16>, k: int)
    requires
        0 <= k <= units.len(),
        forall|j: int| 0 <= j < k ==> #[trigger] units[j] != 0,
        k == units.len() || units[k] == 0,
    ensures
        nul_position(units) == k,
    decreases k,
{
    if k > 0 {
        let rest = units.drop_first();
        assert forall|j: int| 0 <= j < k - 1 implies #[trigger] rest[j] != 0 by {
            assert(rest[j] == units[j + 1]);
        }
        if k < units.len() {
            assert(rest[k - 1] == units[k]);
        }
        lemma_nul_position_is(rest, k - 1);
        assert(units[0] != 0);
    }
}

/// The environment variable a registry value holds: refused when its data
/// is not whole UTF-16 units; none unless it is a string (`REG_SZ`) or an
/// expandable string (`REG_EXPAND_SZ`); otherwise its name and its text up
/// to the first NUL, both decoded leniently.
pub open spec fn registry_value_verdict(name: Seq<u16>, value_type: u32, data: Seq<u8>) -> Result<Option<EnvEntry>, RegistryValueError> {
    if data.len() % 2 != 0 {
        Err(RegistryValueError::OddLength)
    } else if value_type == REG_SZ || value_type == REG_EXPAND_SZ {
        let units = le_units(data);
        Ok(Some((
            utf16_lossy_decoding(name),
            utf16_lossy_decoding(units.take(nul_position(units) as int)),
            value_type == REG_EXPAND_SZ,
        )))
    } else {
        Ok(None)
    }
}

pub fn registry_environment_value(name: &[u16], value_type: u32, data: &[u8]) -> (r: Result<Option<PersistentEnvironmentValue>, RegistryValueError>)
    ensures
        match registry_value_verdict(name@, value_type, data@) {
            Err(e) => r == Err::<Option<PersistentEnvironmentValue>, RegistryValueError>(e),
            Ok(None) => r matches Ok(None),
            Ok(Some(entry)) => r matches Ok(Some(value)) && value@ == entry,
        },
{
    if data.len() % 2 != 0 {
        return Err(RegistryValueError::OddLength);
    }
    if value_type != REG_SZ && value_type != REG_EXPAND_SZ {
        return Ok(None);
    }
    let ghost all = le_units(data@);
    let length = data.len();
    let count = length / 2;
    let mut units: Vec<u16> = Vec::new();
    let mut k: usize = 0;
    while k < count
        invariant_except_break
            k <= count,
            length == data@.len(),
            count == length / 2,
            count == all.len(),
            all == le_units(data@),
            units@ == all.take(k as int),
            forall|j: int| 0 <= j < k ==> #[trigger] all[j] != 0,
        ensures
            k <= count,
            units@ == all.take(k as int),
            forall|j: int| 0 <= j < k ==> #[trigger] all[j] != 0,
            k == count || all[k as int] == 0,
        decreases count - k,
    {
        assert(k + k + 1 < length) by (nonlinear_arith)
            requires
                k < count,
                count == length / 2,
        ;
        let index: usize = k + k;
        let low: u16 = data[index] as u16;
        let high: u16 = data[index + 1] as u16;
        assert(low <= 255 && high <= 255);
        let unit: u16 = low + high * 256;
        assert(unit == all[k as int]);
        if unit == 0 {
            break;
        }
        units.push(unit);
        assert(units@ =~= all.take(k + 1));
        k = k + 1;
    }
    proof {
        lemma_nul_position_is(all, k as int);
    }
    let name_text = utf16_lossy(name);
    let value_text = utf16_lossy(units.as_slice());
    Ok(Some(PersistentEnvironmentValue::new(name_text.as_str(), value_text.as_str(), value_type == REG_EXPAND_SZ)))
}

proof fn lemma_first_named_before(names: Seq<Seq<char>>, name: Seq<char>)
    ensures
        forall|j: int| 0 <= j < first_named(names, name) ==> !ascii_ci_eq(#[trigger] names[j], name),
    decreases names.len(),
{
    lemma_first_named_bound(names, name);
    if names.len() > 0 && !ascii_ci_eq(names[0], name) {
        lemma_first_named_before(names.drop_first(), name);
        assert forall|j: int| 0 <= j < first_named(names, name) implies !ascii_ci_eq(#[trigger] names[j], name) by {
            if j > 0 {
                assert(names[j] == names.drop_first()[j - 1]);
            }
        }
    }
}

proof fn lemma_ascii_ci_eq_equivalence(a: Seq<char>, b: Seq<char>, c: Seq<char>)
    ensures
        ascii_ci_eq(a, b) ==> ascii_ci_eq(b, a),
        ascii_ci_eq(a, b) && ascii_ci_eq(b, c) ==> ascii_ci_eq(a, c),
        ascii_ci_eq(a, a),
{
    if ascii_ci_eq(a, b) {
        assert forall|i: int| 0 <= i < b.len() implies ascii_lower(#[trigger] b[i]) == ascii_lower(a[i]) by {
            assert(ascii_lower(a[i]) == ascii_lower(b[i]));
        }
        if ascii_ci_eq(b, c) {
            assert forall|i: int| 0 <= i < a.len() implies ascii_lower(#[trigger] a[i]) == ascii_lower(c[i]) by {
                assert(ascii_lower(a[i]) == ascii_lower(b[i]));
                assert(ascii_lower(b[i]) == ascii_lower(c[i]));
            }
        }
    }
}

/// The value that looking `name` up in `env` finds: that of the first pair
/// whose name equals it up to ASCII case, as `environment_value` reads it.
pub open spec fn env_lookup(env: Seq<(Seq<char>, Seq<char>)>, name: Seq<char>) -> Option<Seq<char>> {
    let i = first_named(pair_names(env), name);
    if i < env.len() {
        Some(env[i as int].1)
    } else {
        None
    }
}

proof fn lemma_set_pair_lookup(env: Seq<(Seq<char>, Seq<char>)>, n: Seq<char>, v: Seq<char>, name: Seq<char>)
    ensures
        env_lookup(set_pair(env, n, v), name) == if ascii_ci_eq(n, name) {
            Some(v)
        } else {
            env_lookup(env, name)
        },
{
    let names = pair_names(env);
    let i = first_named(names, n) as int;
    let k = first_named(names, name) as int;
    lemma_first_named_bound(names, n);
    lemma_first_named_before(names, n);
    lemma_first_named_bound(names, name);
    lemma_first_named_before(names, name);
    let after = set_pair(env, n, v);
    let names_after = pair_names(after);
    if ascii_ci_eq(n, name) {
        assert forall|j: int| 0 <= j < i implies !ascii_ci_eq(#[trigger] names_after[j], name) by {
            assert(names_after[j] == names[j]);
            lemma_ascii_ci_eq_equivalence(names[j], name, n);
            lemma_ascii_ci_eq_equivalence(n, name, name);
        }
        assert(names_after[i] == n);
        lemma_first_named_is(names_after, name, i);
    } else {
        if i < env.len() {
            assert(ascii_ci_eq(names[i], n));
            lemma_ascii_ci_eq_equivalence(names[i], n, name);
            lemma_ascii_ci_eq_equivalence(n, names[i], name);
            lemma_ascii_ci_eq_equivalence(names[i], name, n);
            assert(!ascii_ci_eq(names[i], name));
            assert(k != i);
            assert forall|j: int| 0 <= j < k implies !ascii_ci_eq(#[trigger] names_after[j], name) by {
                if j == i {
                    lemma_ascii_ci_eq_equivalence(n, name, name);
                } else {
                    assert(names_after[j] == names[j]);
                }
            }
            if k < env.len() {
                assert(names_after[k] == names[k]);
            }
            lemma_first_named_is(names_after, name, k);
        } else {
            assert forall|j: int| 0 <= j < k implies !ascii_ci_eq(#[trigger] names_after[j], name) by {
                assert(names_after[j] == names[j]);
            }
            if k < env.len() {
                assert(names_after[k] == names[k]);
                lemma_first_named_is(names_after, name, k);
            } else {
                assert(names_after[k] == n);
                assert forall|j: int| 0 <= j < k + 1 implies !ascii_ci_eq(#[trigger] names_after[j], name) by {
                    if j < k {
                        assert(names_after[j] == names[j]);
                    }
                }
                lemma_first_named_is(names_after, name, k + 1);
            }
        }
    }
}

/// Overrides read back: after `overrides` are laid over `base`, looking a
/// name up (up to ASCII case) finds the value of the last override of that
/// name, and a name that no override sets reads as it did in `base`.
pub proof fn lemma_overrides_read_back(
    base: Seq<(Seq<char>, Seq<char>)>,
    overrides: Seq<(Seq<char>, Seq<char>)>,
    name: Seq<char>,
)
    ensures
        env_lookup(apply_overrides(base, overrides), name) == match lookup_last(overrides, name) {
            Some(v) => Some(v),
            None => env_lookup(base, name),
        },
    decreases overrides.len(),
{
    if overrides.len() > 0 {
        lemma_overrides_read_back(base, overrides.drop_last(), name);
        lemma_set_pair_lookup(
            apply_overrides(base, overrides.drop_last()),
            overrides.last().0,
            overrides.last().1,
            name,
        );
    }
}

/// A user `Path` extends the existing `Path` entry: where the first entry
/// named `Path` (in any ASCII case) is at `i`, laying a user value named
/// `Path` over the environment keeps that entry's name and place, appends
/// the user value to its value (with `;` between two non-empty parts), and
/// leaves it expandable exactly when either part was, so that `%NAME%`
/// references of an expandable system `Path` are still expanded whatever
/// the user value's type. No other entry changes.
pub proof fn lemma_user_path_extends_path(env: Seq<EnvEntry>, v: EnvEntry, i: int)
    requires
        ascii_ci_eq(v.0, "Path"@),
        0 <= i < env.len(),
        ascii_ci_eq(env[i].0, "Path"@),
        forall|j: int| 0 <= j < i ==> !ascii_ci_eq(#[trigger] env[j].0, "Path"@),
    ensures
        apply_user_value(env, v).len() == env.len(),
        apply_user_value(env, v)[i].0 == env[i].0,
        apply_user_value(env, v)[i].1 == if env[i].1.len() > 0 && v.1.len() > 0 {
            env[i].1 + seq![';'] + v.1
        } else {
            env[i].1 + v.1
        },
        apply_user_value(env, v)[i].2 <==> (env[i].2 || v.2),
        env[i].2 ==> apply_user_value(env, v)[i].2,
        v.2 ==> apply_user_value(env, v)[i].2,
        forall|j: int| 0 <= j < env.len() && j != i ==> #[trigger] apply_user_value(env, v)[j] == env[j],
{
    let names = entry_names(env);
    assert forall|j: int| 0 <= j < i implies !ascii_ci_eq(#[trigger] names[j], "Path"@) by {
        assert(names[j] == env[j].0);
    }
    assert(names[i] == env[i].0);
    lemma_first_named_is(names, "Path"@, i);
}

} // verus!

//! Table and column names: sanitised labels, numbered names and the names that types get.
use vstd::hash_set::StringHashSet;
use vstd::prelude::*;

use crate::ocel::{TypeDefinition, TypeModel};
use crate::text::{
    ascii_lowercase, characters, decimal, decimal_nat_injective, decimal_u64, joined, lower_char,
    lower_text, lower_text_idempotent, same_text,
};

verus! {

/// A set of names in use.
pub struct NameSet {
    names: StringHashSet,
}

impl View for NameSet {
    type V = Set<Seq<char>>;

    closed spec fn view(&self) -> Set<Seq<char>> {
        self.names@
    }
}

impl NameSet {
    #[verifier::type_invariant]
    spec fn well_formed(self) -> bool {
        self.names@.finite()
    }

    /// The set without names.
    pub fn new() -> (r: NameSet)
        ensures
            r@ == Set::<Seq<char>>::empty(),
    {
        NameSet { names: StringHashSet::new() }
    }

    /// The number of names in the set, which is finite.
    pub fn len(&self) -> (r: usize)
        ensures
            self@.finite(),
            r == self@.len(),
    {
        proof {
            use_type_invariant(self);
        }
        self.names.len()
    }

    /// Whether the set holds the name.
    pub fn contains(&self, name: &str) -> (r: bool)
        ensures
            r == self@.contains(name@),
    {
        self.names.contains(name)
    }

    /// Adds the name and says whether it is new to the set.
    pub fn insert(&mut self, name: String) -> (r: bool)
        ensures
            final(self)@ == old(self)@.insert(name@),
            r == !old(self)@.contains(name@),
    {
        proof {
            use_type_invariant(&*self);
        }
        let mut names = StringHashSet::new();
        std::mem::swap(&mut names, &mut self.names);
        let added = names.insert(name);
        self.names = names;
        added
    }
}

/// The name with a number behind it.
pub open spec fn numbered(preferred: Seq<char>, k: int) -> Seq<char> {
    preferred + "_"@ + decimal(k)
}

/// `k` is the least positive number whose numbered name is free.
pub open spec fn least_free(preferred: Seq<char>, used: Set<Seq<char>>, k: int) -> bool {
    &&& k >= 1
    &&& !used.contains(numbered(preferred, k))
    &&& forall|j: int| 1 <= j < k ==> used.contains(#[trigger] numbered(preferred, j))
}

/// The preferred name where it is free, else the first of its numbered names that is.
pub open spec fn unique_text(preferred: Seq<char>, used: Set<Seq<char>>) -> Seq<char> {
    if !used.contains(preferred) {
        preferred
    } else {
        numbered(preferred, choose|k: int| least_free(preferred, used, k))
    }
}

/// The names that get assigned one after the other: each the unique name for its preferred one
/// among those in use before and those assigned so far.
pub open spec fn assigned(preferred: Seq<Seq<char>>, used: Set<Seq<char>>) -> Seq<Seq<char>>
    decreases preferred.len(),
{
    if preferred.len() == 0 {
        Seq::empty()
    } else {
        let before = assigned(preferred.drop_last(), used);
        before.push(unique_text(preferred.last(), used.union(before.to_set())))
    }
}

/// A small letter or a digit of ASCII.
pub open spec fn is_name_char(c: char) -> bool {
    ('a' <= c && c <= 'z') || ('0' <= c && c <= '9')
}

/// The number of name characters at the end of a text.
pub open spec fn trailing_run(s: Seq<char>) -> nat
    decreases s.len(),
{
    if s.len() > 0 && is_name_char(s.last()) {
        1 + trailing_run(s.drop_last())
    } else {
        0
    }
}

/// The maximal runs of name characters in a text, in their order.
pub open spec fn runs(s: Seq<char>) -> Seq<Seq<char>>
    decreases s.len(),
{
    proof {
        trailing_run_fits(s);
    }
    if s.len() == 0 {
        Seq::empty()
    } else if trailing_run(s) == 0 {
        runs(s.drop_last())
    } else {
        let start = s.len() - trailing_run(s);
        runs(s.take(start)).push(s.skip(start))
    }
}

/// The words with one `_` between each two of them.
pub open spec fn underscored(words: Seq<Seq<char>>) -> Seq<char>
    decreases words.len(),
{
    if words.len() == 0 {
        Seq::empty()
    } else if words.len() == 1 {
        words[0]
    } else {
        underscored(words.drop_last()) + "_"@ + words.last()
    }
}

/// The run at the end of a text is no longer than the text.
pub proof fn trailing_run_fits(s: Seq<char>)
    ensures
        trailing_run(s) <= s.len(),
    decreases s.len(),
{
    if s.len() > 0 {
        trailing_run_fits(s.drop_last());
    }
}

/// The name characters of a text, with one `_` for what stands between two of them and for what
/// follows the last one.
spec fn collapsed(s: Seq<char>) -> Seq<char>
    decreases s.len(),
{
    if s.len() == 0 {
        Seq::empty()
    } else {
        let before = collapsed(s.drop_last());
        if is_name_char(s.last()) {
            before.push(s.last())
        } else if before.len() > 0 && before.last() != '_' {
            before.push('_')
        } else {
            before
        }
    }
}

/// The text without the `_` at its end.
spec fn without_trailing(s: Seq<char>) -> Seq<char>
    decreases s.len(),
{
    if s.len() > 0 && s.last() == '_' {
        without_trailing(s.drop_last())
    } else {
        s
    }
}

/// A label as a name: the maximal runs of ASCII letters and digits in lower case, joined by `_`, or
/// `type` where there are none, of which the first 80 characters count.
pub open spec fn sanitized(label: Seq<char>) -> Seq<char> {
    let words = runs(lower_text(label));
    let named = if words.len() == 0 {
        "type"@
    } else {
        underscored(words)
    };
    if named.len() > 80 {
        named.take(80)
    } else {
        named
    }
}

/// The name that a type's table prefers.
pub open spec fn preferred_table_name(prefix: Seq<char>, label: Seq<char>) -> Seq<char> {
    prefix + "_"@ + sanitized(label)
}

/// The types with the names that their tables get.
pub open spec fn table_names(
    prefix: Seq<char>,
    definitions: Seq<TypeModel>,
    used: Set<Seq<char>>,
) -> Seq<(Seq<char>, Seq<char>)> {
    let names = assigned(
        definitions.map_values(|d: TypeModel| preferred_table_name(prefix, d.name)),
        used,
    );
    Seq::new(definitions.len(), |i: int| (definitions[i].name, names[i]))
}

/// The second part of the first pair whose first part is the given name.
pub open spec fn first_match(pairs: Seq<(Seq<char>, Seq<char>)>, name: Seq<char>) -> Option<Seq<char>>
    decreases pairs.len(),
{
    if pairs.len() == 0 {
        None
    } else if pairs[0].0 == name {
        Some(pairs[0].1)
    } else {
        first_match(pairs.drop_first(), name)
    }
}

proof fn numbered_injective(preferred: Seq<char>, j: int, k: int)
    requires
        j >= 0,
        k >= 0,
        numbered(preferred, j) == numbered(preferred, k),
    ensures
        j == k,
{
    let start = (preferred + "_"@).len() as int;
    let a = numbered(preferred, j);
    let b = numbered(preferred, k);
    assert(a.skip(start) == decimal(j));
    assert(b.skip(start) == decimal(k));
    decimal_nat_injective(j as nat, k as nat);
}

/// Where a name and the first of its numbered names are all in use, there are more names in use
/// than those numbered ones.
proof fn numbered_names_bound(preferred: Seq<char>, used: Set<Seq<char>>, count: int)
    requires
        count >= 0,
        used.finite(),
        used.contains(preferred),
        forall|j: int| 1 <= j <= count ==> used.contains(#[trigger] numbered(preferred, j)),
    ensures
        count < used.len(),
{
    let numbers = vstd::set_lib::set_int_range(0, count + 1);
    let name_of = |j: int|
        if j == 0 {
            preferred
        } else {
            numbered(preferred, j)
        };
    vstd::set_lib::lemma_int_range(0, count + 1);
    reveal_strlit("_");
    assert(vstd::relations::injective_on(name_of, numbers)) by {
        assert forall|j: int, k: int|
            numbers.contains(j) && numbers.contains(k) && #[trigger] name_of(j)
                == #[trigger] name_of(k) implies j == k by {
            if j != 0 && k != 0 {
                numbered_injective(preferred, j, k);
            }
        }
    }
    vstd::set_lib::lemma_map_size(numbers, numbers.map(name_of), name_of);
    assert(numbers.map(name_of).subset_of(used));
    vstd::set_lib::lemma_len_subset(numbers.map(name_of), used);
}

proof fn least_free_is(preferred: Seq<char>, used: Set<Seq<char>>, k: int)
    requires
        least_free(preferred, used, k),
    ensures
        (choose|j: int| least_free(preferred, used, j)) == k,
{
    let j = choose|j: int| least_free(preferred, used, j);
    assert(least_free(preferred, used, j));
    if j < k {
        assert(used.contains(numbered(preferred, j)));
    }
    if k < j {
        assert(used.contains(numbered(preferred, k)));
    }
}

/// The preferred name where it is free, else the first of `preferred_1`, `preferred_2`, ... that
/// is.
pub fn unique_name(preferred: &str, used_names: &NameSet) -> (r: String)
    ensures
        r@ == unique_text(preferred@, used_names@),
        !used_names@.contains(r@),
{
    if !used_names.contains(preferred) {
        return preferred.to_string();
    }
    let count: usize = used_names.len();
    let mut suffix: u64 = 1;
    proof {
        numbered_names_bound(preferred@, used_names@, 0);
    }
    loop
        invariant
            used_names@.contains(preferred@),
            used_names@.finite(),
            count == used_names@.len(),
            1 <= suffix <= count,
            forall|j: int|
                1 <= j < suffix ==> used_names@.contains(#[trigger] numbered(preferred@, j)),
        decreases count - suffix,
    {
        let digits = decimal_u64(suffix);
        let candidate = joined(preferred, "_", digits.as_str());
        if !used_names.contains(candidate.as_str()) {
            proof {
                least_free_is(preferred@, used_names@, suffix as int);
            }
            return candidate;
        }
        proof {
            numbered_names_bound(preferred@, used_names@, suffix as int);
        }
        suffix += 1;
    }
}

/// The unique name for the preferred one, which is in use afterwards.
pub(crate) fn assign_name(preferred: &str, used_names: &mut NameSet) -> (r: String)
    ensures
        r@ == unique_text(preferred@, old(used_names)@),
        final(used_names)@ == old(used_names)@.insert(r@),
{
    let name = unique_name(preferred, used_names);
    used_names.insert(name.clone());
    name
}

/// Each type with a table name of its own, made of the prefix and its sanitised name. The names
/// given are in use afterwards.
pub fn type_table_names(
    prefix: &str,
    definitions: &Vec<TypeDefinition>,
    used_names: &mut NameSet,
) -> (r: Vec<(String, String)>)
    ensures
        r.deep_view() == table_names(prefix@, definitions.deep_view(), old(used_names)@),
        final(used_names)@ == old(used_names)@.union(
            r.deep_view().map_values(|pair: (Seq<char>, Seq<char>)| pair.1).to_set(),
        ),
{
    let ghost used = used_names@;
    let ghost preferred = definitions.deep_view().map_values(
        |d: TypeModel| preferred_table_name(prefix@, d.name),
    );
    let mut r: Vec<(String, String)> = Vec::new();
    let mut i: usize = 0;
    proof {
        assert(preferred.take(0) == Seq::<Seq<char>>::empty());
        assert(assigned(preferred.take(0), used).to_set() == Set::<Seq<char>>::empty());
        assert(used.union(Set::empty()) == used);
    }
    while i < definitions.len()
        invariant
            i <= definitions@.len(),
            r@.len() == i,
            preferred == definitions.deep_view().map_values(
                |d: TypeModel| preferred_table_name(prefix@, d.name),
            ),
            assigned(preferred.take(i as int), used).len() == i,
            used_names@ == used.union(assigned(preferred.take(i as int), used).to_set()),
            forall|j: int|
                0 <= j < i ==> #[trigger] r@[j].deep_view() == (
                    definitions.deep_view()[j].name,
                    assigned(preferred.take(i as int), used)[j],
                ),
        decreases definitions@.len() - i,
    {
        let ghost before = assigned(preferred.take(i as int), used);
        let sanitised = sanitize_type_name(definitions[i].name.as_str());
        let wanted = joined(prefix, "_", sanitised.as_str());
        assert(preferred.take(i + 1).drop_last() == preferred.take(i as int));
        assert(preferred.take(i + 1).last() == wanted@);
        let table = assign_name(wanted.as_str(), used_names);
        assert(before.push(table@) == assigned(preferred.take(i + 1), used));
        assert(used.union(before.to_set()).insert(table@) == used.union(
            before.push(table@).to_set(),
        )) by {
            broadcast use vstd::seq_lib::group_seq_properties;

        }
        r.push((definitions[i].name.clone(), table));
        i += 1;
    }
    proof {
        let names = assigned(preferred, used);
        assert(preferred.take(preferred.len() as int) == preferred);
        assert(r.deep_view() == table_names(prefix@, definitions.deep_view(), used));
        assert(r.deep_view().map_values(|pair: (Seq<char>, Seq<char>)| pair.1) == names);
    }
    r
}

/// The table of the first pair for the given type, or the sanitised name where there is none.
pub fn table_name_for_type(table_by_type: &Vec<(String, String)>, name: &str) -> (r: String)
    ensures
        r@ == match first_match(table_by_type.deep_view(), name@) {
            Some(table) => table,
            None => sanitized(name@),
        },
{
    let ghost pairs = table_by_type.deep_view();
    let mut i: usize = 0;
    assert(pairs.skip(0) == pairs);
    while i < table_by_type.len()
        invariant
            i <= table_by_type@.len(),
            pairs == table_by_type.deep_view(),
            first_match(pairs, name@) == first_match(pairs.skip(i as int), name@),
        decreases table_by_type@.len() - i,
    {
        assert(pairs.skip(i as int)[0] == table_by_type@[i as int].deep_view());
        assert(pairs.skip(i as int).drop_first() == pairs.skip(i + 1));
        if same_text(table_by_type[i].0.as_str(), name) {
            return table_by_type[i].1.clone();
        }
        i += 1;
    }
    sanitize_type_name(name)
}

/// A label as a name of small letters, digits and single underscores between them.
pub fn sanitize_type_name(label: &str) -> (r: String)
    ensures
        r@ == sanitized(label@),
{
    let lowered = ascii_lowercase(label);
    let mut value: Vec<char> = Vec::new();
    for c in it: lowered.as_str().chars()
        invariant
            it.seq() == lowered@,
            value@ == collapsed(lowered@.take(it.index())),
    {
        assert(lowered@.take(it.index() + 1).drop_last() == lowered@.take(it.index()));
        let name_char = ('a' <= c && c <= 'z') || ('0' <= c && c <= '9');
        if name_char {
            value.push(c);
        } else if value.len() > 0 && value[value.len() - 1] != '_' {
            value.push('_');
        }
    }
    assert(lowered@.take(lowered@.len() as int) == lowered@);
    while value.len() > 0 && value[value.len() - 1] == '_'
        invariant
            without_trailing(value@) == without_trailing(collapsed(lowered@)),
        decreases value@.len(),
    {
        assert(value@.drop_last() == value@.take(value@.len() - 1));
        value.pop();
    }
    proof {
        stripped_is_underscored(lowered@);
    }
    if value.len() == 0 {
        value = characters("type");
    }
    if value.len() > 80 {
        value.truncate(80);
    }
    let mut r = String::new();
    let mut i: usize = 0;
    while i < value.len()
        invariant
            i <= value@.len(),
            r@ == value@.take(i as int),
        decreases value@.len() - i,
    {
        r.push(value[i]);
        i += 1;
    }
    r
}

/// Behind a name character the collapsed text is the runs joined by `_`; behind another one a `_`
/// follows them, where there are any.
proof fn collapsed_is_underscored(s: Seq<char>)
    ensures
        ({
            let words = runs(s);
            let name = underscored(words);
            &&& words.len() == 0 <==> name.len() == 0
            &&& name.len() > 0 ==> is_name_char(name.last())
            &&& s.len() > 0 && is_name_char(s.last()) ==> name.len() > 0
            &&& collapsed(s) == if name.len() == 0 || is_name_char(s.last()) {
                name
            } else {
                name.push('_')
            }
        }),
    decreases s.len(),
{
    if s.len() > 0 {
        let start = s.drop_last();
        collapsed_is_underscored(start);
        trailing_run_fits(s);
        reveal_strlit("_");
        if is_name_char(s.last()) {
            let at = s.len() - trailing_run(s);
            let before = runs(s.take(at));
            assert(runs(s) == before.push(s.skip(at)));
            assert(runs(s).drop_last() == before);
            if trailing_run(s) == 1 {
                assert(s.take(at) == start);
                assert(s.skip(at) == seq![s.last()]);
            } else {
                trailing_run_fits(start);
                assert(start.take(at) == s.take(at));
                assert(runs(start) == before.push(start.skip(at)));
                assert(runs(start).drop_last() == before);
                assert(s.skip(at) == start.skip(at).push(s.last()));
                assert(underscored(runs(s)) == underscored(runs(start)).push(s.last()));
            }
        }
    }
}

proof fn stripped_is_underscored(s: Seq<char>)
    ensures
        without_trailing(collapsed(s)) == underscored(runs(s)),
        runs(s).len() == 0 <==> underscored(runs(s)).len() == 0,
{
    let name = underscored(runs(s));
    collapsed_is_underscored(s);
    assert(without_trailing(name) == name);
    if collapsed(s) != name {
        assert(collapsed(s).drop_last() == name);
    }
}

proof fn least_free_exists(preferred: Seq<char>, used: Set<Seq<char>>)
    requires
        used.finite(),
    ensures
        exists|k: int| least_free(preferred, used, k),
{
    let k = used.len() as int + 1;
    if forall|j: int| 1 <= j <= k ==> used.contains(#[trigger] numbered(preferred, j)) {
        numbered_names_bound(preferred, used.insert(preferred), k);
    } else {
        let free = choose|j: int|
            1 <= j <= k && !used.contains(#[trigger] numbered(preferred, j));
        least_free_up_to(preferred, used, free);
    }
}

proof fn least_free_up_to(preferred: Seq<char>, used: Set<Seq<char>>, free: int)
    requires
        free >= 1,
        !used.contains(numbered(preferred, free)),
    ensures
        exists|k: int| least_free(preferred, used, k),
    decreases free,
{
    if exists|j: int| 1 <= j < free && !used.contains(#[trigger] numbered(preferred, j)) {
        let j = choose|j: int| 1 <= j < free && !used.contains(#[trigger] numbered(preferred, j));
        least_free_up_to(preferred, used, j);
    } else {
        assert(least_free(preferred, used, free));
    }
}

/// Where the preferred name is in use, the unique name has the least number that is free, and that
/// number is no greater than the number of names in use.
pub proof fn unique_number_is_bounded(preferred: Seq<char>, used: Set<Seq<char>>)
    requires
        used.finite(),
        used.contains(preferred),
    ensures
        exists|k: int|
            1 <= k <= used.len() && #[trigger] least_free(preferred, used, k) && unique_text(
                preferred,
                used,
            ) == numbered(preferred, k),
{
    least_free_exists(preferred, used);
    let k = choose|k: int| least_free(preferred, used, k);
    numbered_names_bound(preferred, used, k - 1);
}

/// A unique name is not in use, and it is the preferred name exactly where that is free.
pub proof fn unique_text_is_free(preferred: Seq<char>, used: Set<Seq<char>>)
    requires
        used.finite(),
    ensures
        !used.contains(unique_text(preferred, used)),
        unique_text(preferred, used) == preferred <==> !used.contains(preferred),
{
    least_free_exists(preferred, used);
}

/// Names that are assigned one after the other are as many as were preferred, differ from each
/// other and from all those in use before; a preferred name that is free when its turn comes is
/// kept.
pub proof fn assigned_names_are_distinct(preferred: Seq<Seq<char>>, used: Set<Seq<char>>)
    requires
        used.finite(),
    ensures
        ({
            let names = assigned(preferred, used);
            &&& names.len() == preferred.len()
            &&& names.no_duplicates()
            &&& forall|i: int| 0 <= i < names.len() ==> !used.contains(#[trigger] names[i])
            &&& forall|i: int|
                0 <= i < names.len() && !used.contains(preferred[i]) && !names.take(i).contains(
                    preferred[i],
                ) ==> #[trigger] names[i] == preferred[i]
        }),
    decreases preferred.len(),
{
    broadcast use vstd::seq_lib::seq_to_set_is_finite;

    if preferred.len() > 0 {
        let before = assigned(preferred.drop_last(), used);
        let names = assigned(preferred, used);
        let taken = used.union(before.to_set());
        assigned_names_are_distinct(preferred.drop_last(), used);
        unique_text_is_free(preferred.last(), taken);
        assert forall|i: int, j: int|
            0 <= i < names.len() && 0 <= j < names.len() && i != j implies names[i] != names[j] by {
            if i == names.len() - 1 {
                assert(before.to_set().contains(before[j]));
            } else if j == names.len() - 1 {
                assert(before.to_set().contains(before[i]));
            } else {
                assert(before[i] != before[j]);
            }
        }
        assert forall|i: int| 0 <= i < names.len() implies !used.contains(#[trigger] names[i]) by {
            if i < before.len() {
                assert(names[i] == before[i]);
            }
        }
        assert forall|i: int|
            0 <= i < names.len() && !used.contains(preferred[i]) && !names.take(i).contains(
                preferred[i],
            ) implies #[trigger] names[i] == preferred[i] by {
            if i < before.len() {
                assert(names.take(i) == before.take(i));
                assert(names[i] == before[i]);
            } else {
                assert(names.take(i) == before);
                assert(!taken.contains(preferred[i]));
            }
        }
    }
}

/// Every type gets a table, and the names of the tables differ from each other and from all those
/// in use before.
pub proof fn table_names_are_distinct(
    prefix: Seq<char>,
    definitions: Seq<TypeModel>,
    used: Set<Seq<char>>,
)
    requires
        used.finite(),
    ensures
        ({
            let pairs = table_names(prefix, definitions, used);
            &&& pairs.len() == definitions.len()
            &&& forall|i: int, j: int|
                0 <= i < j < pairs.len() ==> (#[trigger] pairs[i]).1 != (#[trigger] pairs[j]).1
            &&& forall|i: int| 0 <= i < pairs.len() ==> !used.contains((#[trigger] pairs[i]).1)
        }),
{
    let preferred = definitions.map_values(|d: TypeModel| preferred_table_name(prefix, d.name));
    assigned_names_are_distinct(preferred, used);
}

/// Looked up by the name of a type, the table names of distinct types give the name assigned to
/// that type.
pub proof fn table_names_are_found(
    prefix: Seq<char>,
    definitions: Seq<TypeModel>,
    used: Set<Seq<char>>,
    i: int,
)
    requires
        crate::definitions::distinct_types(definitions),
        0 <= i < definitions.len(),
    ensures
        first_match(table_names(prefix, definitions, used), definitions[i].name) == Some(
            table_names(prefix, definitions, used)[i].1,
        ),
{
    let pairs = table_names(prefix, definitions, used);
    assert(pairs.skip(0) == pairs);
    assert forall|j: int| 0 <= j < i implies (#[trigger] pairs[j]).0 != definitions[i].name by {
        assert(definitions[j].name != definitions[i].name);
    }
    first_match_at(pairs, definitions[i].name, i);
}

proof fn first_match_at(pairs: Seq<(Seq<char>, Seq<char>)>, name: Seq<char>, i: int)
    requires
        0 <= i < pairs.len(),
        pairs[i].0 == name,
        forall|j: int| 0 <= j < i ==> (#[trigger] pairs[j]).0 != name,
    ensures
        first_match(pairs, name) == Some(pairs[i].1),
    decreases i,
{
    if i > 0 {
        let rest = pairs.drop_first();
        assert(pairs[0].0 != name);
        assert forall|j: int| 0 <= j < i - 1 implies (#[trigger] rest[j]).0 != name by {
            assert(rest[j] == pairs[j + 1]);
        }
        first_match_at(rest, name, i - 1);
    }
}

/// Only name characters and single underscores behind them.
pub open spec fn is_name_text(s: Seq<char>) -> bool {
    &&& s.len() > 0 ==> s[0] != '_'
    &&& forall|i: int| 0 <= i < s.len() ==> is_name_char(#[trigger] s[i]) || s[i] == '_'
    &&& forall|i: int| 0 < i < s.len() && #[trigger] s[i] == '_' ==> s[i - 1] != '_'
}

proof fn collapsed_is_name_text(s: Seq<char>)
    ensures
        is_name_text(collapsed(s)),
    decreases s.len(),
{
    if s.len() > 0 {
        collapsed_is_name_text(s.drop_last());
    }
}

proof fn without_trailing_is_prefix(s: Seq<char>)
    ensures
        without_trailing(s).is_prefix_of(s),
        without_trailing(s).len() > 0 ==> without_trailing(s).last() != '_',
    decreases s.len(),
{
    if s.len() > 0 && s.last() == '_' {
        without_trailing_is_prefix(s.drop_last());
    }
}

/// A sanitised name is not empty, has 80 characters at most, starts with a small letter or a digit
/// and consists of small letters, digits and underscores that do not follow each other.
pub proof fn sanitized_is_name_text(label: Seq<char>)
    ensures
        0 < sanitized(label).len() <= 80,
        is_name_text(sanitized(label)),
        is_name_char(sanitized(label)[0]),
{
    let all = collapsed(lower_text(label));
    collapsed_is_name_text(lower_text(label));
    without_trailing_is_prefix(all);
    let stripped = without_trailing(all);
    stripped_is_underscored(lower_text(label));
    assert forall|i: int| 0 <= i < stripped.len() implies #[trigger] stripped[i] == all[i] by {}
    reveal_strlit("type");
}

proof fn name_text_collapses_to_itself(s: Seq<char>)
    requires
        is_name_text(s),
    ensures
        collapsed(s) == s,
        lower_text(s) == s,
    decreases s.len(),
{
    if s.len() > 0 {
        let start = s.drop_last();
        assert(is_name_text(start)) by {
            assert forall|i: int| 0 <= i < start.len() implies is_name_char(#[trigger] start[i])
                || start[i] == '_' by {
                assert(start[i] == s[i]);
            }
            assert forall|i: int| 0 < i < start.len() && #[trigger] start[i] == '_' implies start[i
                - 1] != '_' by {
                assert(s[i] == '_');
            }
        }
        name_text_collapses_to_itself(start);
        assert(is_name_char(s[s.len() - 1]) || s[s.len() - 1] == '_');
        assert(lower_char(s.last()) == s.last());
        assert(lower_text(s) == lower_text(start).push(s.last()));
        assert(start.push(s.last()) == s);
    }
}

/// A sanitised name ends with an underscore only where it has been cut after 80 characters.
pub proof fn sanitized_ends_with_name_char(label: Seq<char>)
    ensures
        sanitized(label).len() < 80 ==> is_name_char(sanitized(label).last()),
        sanitized(label).last() == '_' ==> sanitized(label).len() == 80,
{
    collapsed_is_underscored(lower_text(label));
    sanitized_is_name_text(label);
    reveal_strlit("type");
}

/// A label has the same sanitised name in any case.
pub proof fn sanitized_ignores_case(label: Seq<char>)
    ensures
        sanitized(lower_text(label)) == sanitized(label),
{
    lower_text_idempotent(label);
}

/// Sanitising a sanitised name again changes nothing, unless the cut after 80 characters has left
/// an underscore at its end.
pub proof fn sanitized_idempotent(label: Seq<char>)
    requires
        sanitized(label).last() != '_',
    ensures
        sanitized(sanitized(label)) == sanitized(label),
{
    let name = sanitized(label);
    sanitized_is_name_text(label);
    name_text_collapses_to_itself(name);
    stripped_is_underscored(name);
}

proof fn collapsed_leading(before: Seq<char>, core: Seq<char>)
    requires
        forall|i: int| 0 <= i < before.len() ==> !is_name_char(#[trigger] before[i]),
    ensures
        collapsed(before + core) == collapsed(core),
    decreases core.len(), before.len(),
{
    if core.len() > 0 {
        assert((before + core).drop_last() == before + core.drop_last());
        collapsed_leading(before, core.drop_last());
    } else if before.len() > 0 {
        let all = before + core;
        assert(all.drop_last() == before.drop_last() + core);
        assert(all.last() == before[before.len() - 1]);
        collapsed_leading(before.drop_last(), core);
    }
}

proof fn collapsed_trailing(core: Seq<char>, after: Seq<char>)
    requires
        forall|i: int| 0 <= i < after.len() ==> !is_name_char(#[trigger] after[i]),
    ensures
        without_trailing(collapsed(core + after)) == without_trailing(collapsed(core)),
    decreases after.len(),
{
    if after.len() > 0 {
        let all = core + after;
        assert(all.drop_last() == core + after.drop_last());
        assert(all.last() == after[after.len() - 1]);
        collapsed_trailing(core, after.drop_last());
        let shorter = collapsed(all.drop_last());
        if shorter.len() > 0 && shorter.last() != '_' {
            assert(shorter.push('_').drop_last() == shorter);
        }
    } else {
        assert(core + after == core);
    }
}

/// Characters around a label that are neither letters nor digits, such as white space, leave its
/// sanitised name unchanged.
pub proof fn sanitized_ignores_surroundings(before: Seq<char>, core: Seq<char>, after: Seq<char>)
    requires
        forall|i: int| 0 <= i < before.len() ==> !is_name_char(lower_char(#[trigger] before[i])),
        forall|i: int| 0 <= i < after.len() ==> !is_name_char(lower_char(#[trigger] after[i])),
    ensures
        sanitized(before + core + after) == sanitized(core),
{
    let b = lower_text(before);
    let c = lower_text(core);
    let a = lower_text(after);
    assert(lower_text(before + core + after) == b + (c + a));
    assert forall|i: int| 0 <= i < b.len() implies !is_name_char(#[trigger] b[i]) by {
        assert(b[i] == lower_char(before[i]));
    }
    assert forall|i: int| 0 <= i < a.len() implies !is_name_char(#[trigger] a[i]) by {
        assert(a[i] == lower_char(after[i]));
    }
    collapsed_leading(b, c + a);
    collapsed_trailing(c, a);
    stripped_is_underscored(b + (c + a));
    stripped_is_underscored(c);
}

/// Behind a name that is in use stands `_` and the least positive number that makes it free; a free
/// name is kept.
pub proof fn unique_text_counts_up(preferred: Seq<char>, used: Set<Seq<char>>)
    requires
        used.finite(),
    ensures
        !used.contains(preferred) ==> unique_text(preferred, used) == preferred,
        used.contains(preferred) ==> exists|k: int|
            {
                &&& k >= 1
                &&& unique_text(preferred, used) == #[trigger] (preferred + "_"@ + decimal(k))
                &&& !used.contains(preferred + "_"@ + decimal(k))
                &&& forall|j: int|
                    1 <= j < k ==> used.contains(#[trigger] (preferred + "_"@ + decimal(j)))
            },
{
    if used.contains(preferred) {
        unique_number_is_bounded(preferred, used);
        let k = choose|k: int|
            1 <= k <= used.len() && #[trigger] least_free(preferred, used, k) && unique_text(
                preferred,
                used,
            ) == numbered(preferred, k);
        assert forall|j: int| 1 <= j < k implies used.contains(
            #[trigger] (preferred + "_"@ + decimal(j)),
        ) by {
            assert(used.contains(numbered(preferred, j)));
        }
        assert(unique_text(preferred, used) == preferred + "_"@ + decimal(k));
    }
}

/// A further name is assigned behind those before it, which it leaves as they are: it is kept where
/// it is free, and else gets the least number that makes it so.
pub proof fn names_are_assigned_one_by_one(
    preferred: Seq<Seq<char>>,
    next: Seq<char>,
    used: Set<Seq<char>>,
)
    requires
        used.finite(),
    ensures
        ({
            let before = assigned(preferred, used);
            let after = assigned(preferred.push(next), used);
            let name = after.last();
            &&& assigned(Seq::empty(), used) == Seq::<Seq<char>>::empty()
            &&& after == before.push(name)
            &&& !used.contains(name) && !before.contains(name)
            &&& !used.contains(next) && !before.contains(next) ==> name == next
            &&& used.contains(next) || before.contains(next) ==> exists|k: int|
                {
                    &&& k >= 1
                    &&& name == #[trigger] (next + "_"@ + decimal(k))
                    &&& forall|j: int|
                        1 <= j < k ==> used.contains(#[trigger] (next + "_"@ + decimal(j)))
                            || before.contains(next + "_"@ + decimal(j))
                }
        }),
{
    broadcast use vstd::seq_lib::seq_to_set_is_finite;

    let before = assigned(preferred, used);
    let taken = used.union(before.to_set());
    assert(preferred.push(next).drop_last() == preferred);
    unique_text_is_free(next, taken);
    unique_text_counts_up(next, taken);
    assert forall|name: Seq<char>| taken.contains(name) <==> #[trigger] used.contains(name)
        || before.contains(name) by {}
    if taken.contains(next) {
        let k = choose|k: int|
            {
                &&& k >= 1
                &&& unique_text(next, taken) == #[trigger] (next + "_"@ + decimal(k))
                &&& !taken.contains(next + "_"@ + decimal(k))
                &&& forall|j: int|
                    1 <= j < k ==> taken.contains(#[trigger] (next + "_"@ + decimal(j)))
            };
        assert forall|j: int| 1 <= j < k implies used.contains(
            #[trigger] (next + "_"@ + decimal(j)),
        ) || before.contains(next + "_"@ + decimal(j)) by {
            assert(taken.contains(next + "_"@ + decimal(j)));
        }
    }
}

/// The tables of types go by the names of the types, in their order, and prefer the prefix, `_` and
/// the sanitised name.
pub proof fn types_keep_their_names(
    prefix: Seq<char>,
    definitions: Seq<TypeModel>,
    used: Set<Seq<char>>,
)
    requires
        used.finite(),
    ensures
        ({
            let pairs = table_names(prefix, definitions, used);
            let preferred = Seq::new(
                definitions.len(),
                |i: int| prefix + "_"@ + sanitized(definitions[i].name),
            );
            &&& pairs.len() == definitions.len()
            &&& forall|i: int|
                0 <= i < definitions.len() ==> (#[trigger] pairs[i]).0 == definitions[i].name
                    && pairs[i].1 == assigned(preferred, used)[i]
        }),
{
    assert(definitions.map_values(|d: TypeModel| preferred_table_name(prefix, d.name)) == Seq::new(
        definitions.len(),
        |i: int| prefix + "_"@ + sanitized(definitions[i].name),
    ));
}

/// A look-up finds the second part of the first pair whose first part is the name, and nothing where
/// there is no such pair.
pub proof fn first_match_is_first(pairs: Seq<(Seq<char>, Seq<char>)>, name: Seq<char>)
    ensures
        match first_match(pairs, name) {
            Some(found) => exists|i: int|
                {
                    &&& 0 <= i < pairs.len()
                    &&& (#[trigger] pairs[i]).0 == name
                    &&& pairs[i].1 == found
                    &&& forall|j: int| 0 <= j < i ==> (#[trigger] pairs[j]).0 != name
                },
            None => forall|i: int| 0 <= i < pairs.len() ==> (#[trigger] pairs[i]).0 != name,
        },
    decreases pairs.len(),
{
    if pairs.len() > 0 && pairs[0].0 != name {
        let rest = pairs.drop_first();
        first_match_is_first(rest, name);
        match first_match(rest, name) {
            Some(found) => {
                let i = choose|i: int|
                    {
                        &&& 0 <= i < rest.len()
                        &&& (#[trigger] rest[i]).0 == name
                        &&& rest[i].1 == found
                        &&& forall|j: int| 0 <= j < i ==> (#[trigger] rest[j]).0 != name
                    };
                assert forall|j: int| 0 <= j < i + 1 implies (#[trigger] pairs[j]).0 != name by {
                    if j > 0 {
                        assert(rest[j - 1] == pairs[j]);
                    }
                }
                assert(pairs[i + 1] == rest[i]);
            },
            None => {
                assert forall|i: int| 0 <= i < pairs.len() implies (#[trigger] pairs[i]).0
                    != name by {
                    if i > 0 {
                        assert(rest[i - 1] == pairs[i]);
                    }
                }
            },
        }
    }
}

proof fn runs_need_name_chars(s: Seq<char>)
    ensures
        underscored(runs(s)).len() > 0 <==> exists|i: int|
            0 <= i < s.len() && is_name_char(#[trigger] s[i]),
    decreases s.len(),
{
    collapsed_is_underscored(s);
    if s.len() > 0 {
        let start = s.drop_last();
        runs_need_name_chars(start);
        collapsed_is_underscored(start);
        if is_name_char(s.last()) {
            assert(is_name_char(s[s.len() - 1]));
        } else {
            if exists|i: int| 0 <= i < start.len() && is_name_char(#[trigger] start[i]) {
                let i = choose|i: int| 0 <= i < start.len() && is_name_char(#[trigger] start[i]);
                assert(is_name_char(s[i]));
            }
            if exists|i: int| 0 <= i < s.len() && is_name_char(#[trigger] s[i]) {
                let i = choose|i: int| 0 <= i < s.len() && is_name_char(#[trigger] s[i]);
                assert(is_name_char(start[i]));
            }
        }
    }
}

/// A label without ASCII letters and digits is called `type`.
pub proof fn labels_without_letters_are_types(label: Seq<char>)
    requires
        forall|i: int|
            0 <= i < label.len() ==> !({
                let c = #[trigger] label[i];
                ('a' <= c && c <= 'z') || ('A' <= c && c <= 'Z') || ('0' <= c && c <= '9')
            }),
    ensures
        sanitized(label) == "type"@,
{
    let lowered = lower_text(label);
    runs_need_name_chars(lowered);
    collapsed_is_underscored(lowered);
    assert forall|i: int| 0 <= i < lowered.len() implies !is_name_char(#[trigger] lowered[i]) by {
        assert(lowered[i] == lower_char(label[i]));
    }
    reveal_strlit("type");
}

/// What is neither an ASCII letter nor a digit changes nothing at the end of a label.
pub proof fn sanitized_skips_other_characters(label: Seq<char>, c: char)
    requires
        !(('a' <= c && c <= 'z') || ('A' <= c && c <= 'Z') || ('0' <= c && c <= '9')),
    ensures
        sanitized(label.push(c)) == sanitized(label),
{
    assert(lower_text(label.push(c)) == lower_text(label).push(c));
    assert(lower_text(label).push(c).drop_last() == lower_text(label));
}

/// The first ASCII letter or digit of a label, in lower case, is its name so far.
pub proof fn sanitized_starts_with_the_first_letter(label: Seq<char>, c: char)
    requires
        ('a' <= c && c <= 'z') || ('A' <= c && c <= 'Z') || ('0' <= c && c <= '9'),
        forall|i: int|
            0 <= i < label.len() ==> !({
                let d = #[trigger] label[i];
                ('a' <= d && d <= 'z') || ('A' <= d && d <= 'Z') || ('0' <= d && d <= '9')
            }),
    ensures
        sanitized(label.push(c)) == seq![
            if 'A' <= c && c <= 'Z' {
                ((c as u32 + 32) as u32) as char
            } else {
                c
            },
        ],
{
    let lowered = lower_text(label);
    let small = lower_char(c);
    let all = lowered.push(small);
    assert(lower_text(label.push(c)) == all);
    assert(all.drop_last() == lowered);
    runs_need_name_chars(lowered);
    collapsed_is_underscored(lowered);
    collapsed_is_underscored(all);
    assert forall|i: int| 0 <= i < lowered.len() implies !is_name_char(#[trigger] lowered[i]) by {
        assert(lowered[i] == lower_char(label[i]));
    }
    assert(is_name_char(small));
    assert(collapsed(all) == seq![small]);
}

/// A further ASCII letter or digit of a label goes behind its name so far in lower case, behind `_`
/// where something else stands before it in the label, as far as there is room.
pub proof fn sanitized_goes_on(label: Seq<char>, c: char, i: int)
    requires
        ('a' <= c && c <= 'z') || ('A' <= c && c <= 'Z') || ('0' <= c && c <= '9'),
        0 <= i < label.len(),
        ({
            let d = label[i];
            ('a' <= d && d <= 'z') || ('A' <= d && d <= 'Z') || ('0' <= d && d <= '9')
        }),
    ensures
        ({
            let d = label.last();
            let small = if 'A' <= c && c <= 'Z' {
                ((c as u32 + 32) as u32) as char
            } else {
                c
            };
            let longer = if ('a' <= d && d <= 'z') || ('A' <= d && d <= 'Z') || ('0' <= d && d
                <= '9') {
                sanitized(label).push(small)
            } else {
                sanitized(label).push('_').push(small)
            };
            sanitized(label.push(c)) == if longer.len() <= 80 {
                longer
            } else {
                longer.take(80)
            }
        }),
{
    let lowered = lower_text(label);
    let small = lower_char(c);
    let all = lowered.push(small);
    let name = underscored(runs(lowered));
    assert(lower_text(label.push(c)) == all);
    assert(all.drop_last() == lowered);
    assert(lowered[i] == lower_char(label[i]));
    assert(is_name_char(lowered[i]));
    assert(lowered.last() == lower_char(label.last()));
    runs_need_name_chars(lowered);
    collapsed_is_underscored(lowered);
    collapsed_is_underscored(all);
    assert(is_name_char(small));
    assert(underscored(runs(all)) == if is_name_char(lowered.last()) {
        name.push(small)
    } else {
        name.push('_').push(small)
    });
}

} // verus!

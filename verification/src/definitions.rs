//! The type definitions of a log: the declared types, completed by what its events and objects use.
use vstd::prelude::*;

use crate::ocel::{
    AttributeDefinition, AttributeDefinitionModel, Event, EventAttributeModel, EventModel, Object,
    ObjectAttributeModel, ObjectModel, Ocel, OcelModel, TypeDefinition, TypeModel,
};
use crate::text::same_text;

verus! {

/// Some definition has the given name.
pub open spec fn has_type(definitions: Seq<TypeModel>, name: Seq<char>) -> bool {
    exists|i: int| 0 <= i < definitions.len() && #[trigger] definitions[i].name == name
}

/// `i` is the position of the first definition with the given name.
pub open spec fn first_with_name(definitions: Seq<TypeModel>, name: Seq<char>, i: int) -> bool {
    &&& 0 <= i < definitions.len()
    &&& definitions[i].name == name
    &&& forall|j: int| 0 <= j < i ==> #[trigger] definitions[j].name != name
}

/// The position of the first definition with the given name, where there is one.
pub open spec fn type_position(definitions: Seq<TypeModel>, name: Seq<char>) -> int {
    choose|i: int| first_with_name(definitions, name, i)
}

/// No two definitions have the same name.
pub open spec fn distinct_types(definitions: Seq<TypeModel>) -> bool {
    forall|i: int, j: int|
        0 <= i < j < definitions.len() ==> #[trigger] definitions[i].name
            != #[trigger] definitions[j].name
}

/// Some attribute has the given name.
pub open spec fn has_attribute(attributes: Seq<AttributeDefinitionModel>, name: Seq<char>) -> bool {
    exists|i: int| 0 <= i < attributes.len() && #[trigger] attributes[i].name == name
}

/// The declared types, each name where it is declared first.
pub open spec fn declared_types(types: Seq<TypeModel>) -> Seq<TypeModel>
    decreases types.len(),
{
    if types.len() == 0 {
        Seq::empty()
    } else {
        let before = declared_types(types.drop_last());
        if has_type(before, types.last().name) {
            before
        } else {
            before.push(types.last())
        }
    }
}

/// The definitions, with one for the given name appended where there was none.
pub open spec fn with_type(definitions: Seq<TypeModel>, name: Seq<char>) -> Seq<TypeModel> {
    if has_type(definitions, name) {
        definitions
    } else {
        definitions.push(TypeModel { name, attributes: Seq::empty() })
    }
}

/// The definition, with an attribute of the given name appended where there was none.
pub open spec fn with_attribute(
    definition: TypeModel,
    name: Seq<char>,
    value_type: Seq<char>,
) -> TypeModel {
    if has_attribute(definition.attributes, name) {
        definition
    } else {
        TypeModel {
            attributes: definition.attributes.push(AttributeDefinitionModel { name, value_type }),
            ..definition
        }
    }
}

/// The definition, completed by attributes of the given names, which hold strings.
pub open spec fn with_attributes(definition: TypeModel, names: Seq<Seq<char>>) -> TypeModel
    decreases names.len(),
{
    if names.len() == 0 {
        definition
    } else {
        with_attribute(with_attributes(definition, names.drop_last()), names.last(), "string"@)
    }
}

/// One use of a type: its name and the names of the attributes that come with it.
pub struct Use {
    pub name: Seq<char>,
    pub attributes: Seq<Seq<char>>,
}

/// The definitions after one use of a type.
pub open spec fn after_use(definitions: Seq<TypeModel>, used: Use) -> Seq<TypeModel> {
    let ensured = with_type(definitions, used.name);
    let i = type_position(ensured, used.name);
    ensured.update(i, with_attributes(ensured[i], used.attributes))
}

/// The definitions after one use after the other.
pub open spec fn after_uses(definitions: Seq<TypeModel>, uses: Seq<Use>) -> Seq<TypeModel>
    decreases uses.len(),
{
    if uses.len() == 0 {
        definitions
    } else {
        after_use(after_uses(definitions, uses.drop_last()), uses.last())
    }
}

/// The use that an event makes of its type.
pub open spec fn event_use(event: EventModel) -> Use {
    Use {
        name: event.event_type,
        attributes: event.attributes.map_values(|attribute: EventAttributeModel| attribute.name),
    }
}

/// The use that an object makes of its type.
pub open spec fn object_use(object: ObjectModel) -> Use {
    Use {
        name: object.object_type,
        attributes: object.attributes.map_values(|attribute: ObjectAttributeModel| attribute.name),
    }
}

/// The event types of a log: the declared ones, completed by one event after the other.
pub open spec fn event_types_of(ocel: OcelModel) -> Seq<TypeModel> {
    after_uses(
        declared_types(ocel.event_types),
        ocel.events.map_values(|event: EventModel| event_use(event)),
    )
}

/// The object types of a log: the declared ones, completed by one object after the other.
pub open spec fn object_types_of(ocel: OcelModel) -> Seq<TypeModel> {
    after_uses(
        declared_types(ocel.object_types),
        ocel.objects.map_values(|object: ObjectModel| object_use(object)),
    )
}

pub(crate) proof fn type_position_is(definitions: Seq<TypeModel>, name: Seq<char>, i: int)
    requires
        first_with_name(definitions, name, i),
    ensures
        type_position(definitions, name) == i,
        has_type(definitions, name),
{
    let p = type_position(definitions, name);
    assert(first_with_name(definitions, name, p));
    if p < i {
        assert(definitions[p].name != name);
    }
}

proof fn type_position_exists(definitions: Seq<TypeModel>, name: Seq<char>)
    requires
        has_type(definitions, name),
    ensures
        first_with_name(definitions, name, type_position(definitions, name)),
{
    let w = choose|i: int| 0 <= i < definitions.len() && #[trigger] definitions[i].name == name;
    first_with_name_up_to(definitions, name, w);
}

proof fn first_with_name_up_to(definitions: Seq<TypeModel>, name: Seq<char>, w: int)
    requires
        0 <= w < definitions.len(),
        definitions[w].name == name,
    ensures
        exists|i: int| first_with_name(definitions, name, i),
    decreases w,
{
    if exists|j: int| 0 <= j < w && #[trigger] definitions[j].name == name {
        let j = choose|j: int| 0 <= j < w && #[trigger] definitions[j].name == name;
        first_with_name_up_to(definitions, name, j);
    } else {
        assert(first_with_name(definitions, name, w));
    }
}

/// The position of the first definition with the given name.
pub(crate) fn find_type(definitions: &Vec<TypeDefinition>, name: &str) -> (r: Option<usize>)
    ensures
        match r {
            Some(i) => first_with_name(definitions.deep_view(), name@, i as int),
            None => !has_type(definitions.deep_view(), name@),
        },
{
    let mut i: usize = 0;
    while i < definitions.len()
        invariant
            i <= definitions@.len(),
            forall|j: int| 0 <= j < i ==> #[trigger] definitions.deep_view()[j].name != name@,
        decreases definitions@.len() - i,
    {
        assert(definitions.deep_view()[i as int].name == definitions@[i as int].name@);
        if same_text(definitions[i].name.as_str(), name) {
            return Some(i);
        }
        i += 1;
    }
    None
}

fn copied_attributes(attributes: &Vec<AttributeDefinition>) -> (r: Vec<AttributeDefinition>)
    ensures
        r.deep_view() == attributes.deep_view(),
{
    let mut r: Vec<AttributeDefinition> = Vec::new();
    let mut i: usize = 0;
    while i < attributes.len()
        invariant
            i <= attributes@.len(),
            r.deep_view() == attributes.deep_view().take(i as int),
        decreases attributes@.len() - i,
    {
        let ghost before = r.deep_view();
        r.push(
            AttributeDefinition {
                name: attributes[i].name.clone(),
                value_type: attributes[i].value_type.clone(),
            },
        );
        assert(r.deep_view() == before.push(attributes@[i as int].deep_view()));
        i += 1;
    }
    r
}

/// The declared types without those whose name was declared before.
pub fn type_definitions(types: &Vec<TypeDefinition>) -> (r: Vec<TypeDefinition>)
    ensures
        r.deep_view() == declared_types(types.deep_view()),
{
    let mut r: Vec<TypeDefinition> = Vec::new();
    let mut i: usize = 0;
    while i < types.len()
        invariant
            i <= types@.len(),
            r.deep_view() == declared_types(types.deep_view().take(i as int)),
        decreases types@.len() - i,
    {
        proof {
            let next = types.deep_view().take(i + 1);
            assert(next.drop_last() == types.deep_view().take(i as int));
            assert(next.last() == types@[i as int].deep_view());
        }
        if find_type(&r, types[i].name.as_str()).is_none() {
            let ghost before = r.deep_view();
            r.push(
                TypeDefinition {
                    name: types[i].name.clone(),
                    attributes: copied_attributes(&types[i].attributes),
                },
            );
            assert(r.deep_view() == before.push(types@[i as int].deep_view()));
        } else {
            proof {
                let p = choose|p: int|
                    first_with_name(r.deep_view(), types@[i as int].name@, p);
                assert(r.deep_view()[p].name == types@[i as int].name@);
            }
        }
        i += 1;
    }
    assert(types.deep_view().take(types@.len() as int) == types.deep_view());
    r
}

/// The definition with the given name, appended without attributes where there was none. What
/// the caller makes of it takes its place in the list.
pub fn ensure_definition<'a>(
    definitions: &'a mut Vec<TypeDefinition>,
    name: &str,
) -> (r: &'a mut TypeDefinition)
    ensures
        ({
            let ensured = with_type(old(definitions).deep_view(), name@);
            let i = type_position(ensured, name@);
            &&& first_with_name(ensured, name@, i)
            &&& r.deep_view() == ensured[i]
            &&& final(definitions).deep_view() == ensured.update(i, final(r).deep_view())
        }),
{
    let found = find_type(definitions, name);
    let ghost before = definitions.deep_view();
    match found {
        Some(i) => {
            proof {
                type_position_is(before, name@, i as int);
            }
            &mut definitions[i]
        },
        None => {
            let last: usize = definitions.len();
            definitions.push(TypeDefinition { name: name.to_string(), attributes: Vec::new() });
            proof {
                let ensured = before.push(TypeModel { name: name@, attributes: Seq::empty() });
                assert(definitions@[last as int].attributes.deep_view() == Seq::<
                    AttributeDefinitionModel,
                >::empty());
                assert(definitions.deep_view() == ensured);
                assert(first_with_name(ensured, name@, last as int));
                type_position_is(ensured, name@, last as int);
            }
            &mut definitions[last]
        },
    }
}

/// Appends an attribute of the given name and value type unless there is one of that name.
pub fn add_attribute_if_missing(definition: &mut TypeDefinition, name: &str, value_type: &str)
    ensures
        final(definition).deep_view() == with_attribute(
            old(definition).deep_view(),
            name@,
            value_type@,
        ),
{
    let mut i: usize = 0;
    while i < definition.attributes.len()
        invariant
            *definition == *old(definition),
            i <= definition.attributes@.len(),
            forall|j: int|
                0 <= j < i ==> #[trigger] definition.attributes.deep_view()[j].name != name@,
        decreases definition.attributes@.len() - i,
    {
        assert(definition.attributes.deep_view()[i as int].name
            == definition.attributes@[i as int].name@);
        if same_text(definition.attributes[i].name.as_str(), name) {
            return ;
        }
        i += 1;
    }
    definition.attributes.push(
        AttributeDefinition { name: name.to_string(), value_type: value_type.to_string() },
    );
    assert(definition.attributes.deep_view() == old(definition).attributes.deep_view().push(
        AttributeDefinitionModel { name: name@, value_type: value_type@ },
    ));
}

fn add_event_attributes(definition: &mut TypeDefinition, event: &Event)
    ensures
        final(definition).deep_view() == with_attributes(
            old(definition).deep_view(),
            event_use(event.deep_view()).attributes,
        ),
{
    let attributes = &event.attributes;
    let ghost names = event_use(event.deep_view()).attributes;
    let mut i: usize = 0;
    while i < attributes.len()
        invariant
            i <= attributes@.len(),
            *attributes == event.attributes,
            names == event_use(event.deep_view()).attributes,
            definition.deep_view() == with_attributes(
                old(definition).deep_view(),
                names.take(i as int),
            ),
        decreases attributes@.len() - i,
    {
        assert(names.take(i + 1).drop_last() == names.take(i as int));
        assert(names.take(i + 1).last() == attributes@[i as int].name@);
        add_attribute_if_missing(definition, attributes[i].name.as_str(), "string");
        i += 1;
    }
    assert(names.take(names.len() as int) == names);
}

fn add_object_attributes(definition: &mut TypeDefinition, object: &Object)
    ensures
        final(definition).deep_view() == with_attributes(
            old(definition).deep_view(),
            object_use(object.deep_view()).attributes,
        ),
{
    let attributes = &object.attributes;
    let ghost names = object_use(object.deep_view()).attributes;
    let mut i: usize = 0;
    while i < attributes.len()
        invariant
            i <= attributes@.len(),
            *attributes == object.attributes,
            names == object_use(object.deep_view()).attributes,
            definition.deep_view() == with_attributes(
                old(definition).deep_view(),
                names.take(i as int),
            ),
        decreases attributes@.len() - i,
    {
        assert(names.take(i + 1).drop_last() == names.take(i as int));
        assert(names.take(i + 1).last() == attributes@[i as int].name@);
        add_attribute_if_missing(definition, attributes[i].name.as_str(), "string");
        i += 1;
    }
    assert(names.take(names.len() as int) == names);
}

/// The event types of a log: those it declares, completed by the types and attributes that its
/// events use.
pub fn event_type_definitions(ocel: &Ocel) -> (r: Vec<TypeDefinition>)
    ensures
        r.deep_view() == event_types_of(ocel.deep_view()),
        r.deep_view() == completed_types(
            ocel.deep_view().event_types,
            ocel.deep_view().events.map_values(|event: EventModel| event_use(event)),
        ),
{
    let ghost declared = declared_types(ocel.deep_view().event_types);
    let ghost uses = ocel.deep_view().events.map_values(|event: EventModel| event_use(event));
    let mut definitions = type_definitions(&ocel.event_types);
    let mut i: usize = 0;
    while i < ocel.events.len()
        invariant
            i <= ocel.events@.len(),
            uses == ocel.deep_view().events.map_values(|event: EventModel| event_use(event)),
            definitions.deep_view() == after_uses(declared, uses.take(i as int)),
        decreases ocel.events@.len() - i,
    {
        assert(uses.take(i + 1).drop_last() == uses.take(i as int));
        assert(uses.take(i + 1).last() == event_use(ocel.events@[i as int].deep_view()));
        let definition = ensure_definition(&mut definitions, ocel.events[i].event_type.as_str());
        add_event_attributes(definition, &ocel.events[i]);
        i += 1;
    }
    assert(uses.take(uses.len() as int) == uses);
    proof {
        types_come_in_order(ocel.deep_view().event_types, uses);
    }
    definitions
}

/// The object types of a log: those it declares, completed by the types and attributes that its
/// objects use.
pub fn object_type_definitions(ocel: &Ocel) -> (r: Vec<TypeDefinition>)
    ensures
        r.deep_view() == object_types_of(ocel.deep_view()),
        r.deep_view() == completed_types(
            ocel.deep_view().object_types,
            ocel.deep_view().objects.map_values(|object: ObjectModel| object_use(object)),
        ),
{
    let ghost declared = declared_types(ocel.deep_view().object_types);
    let ghost uses = ocel.deep_view().objects.map_values(|object: ObjectModel| object_use(object));
    let mut definitions = type_definitions(&ocel.object_types);
    let mut i: usize = 0;
    while i < ocel.objects.len()
        invariant
            i <= ocel.objects@.len(),
            uses == ocel.deep_view().objects.map_values(|object: ObjectModel| object_use(object)),
            definitions.deep_view() == after_uses(declared, uses.take(i as int)),
        decreases ocel.objects@.len() - i,
    {
        assert(uses.take(i + 1).drop_last() == uses.take(i as int));
        assert(uses.take(i + 1).last() == object_use(ocel.objects@[i as int].deep_view()));
        let definition = ensure_definition(&mut definitions, ocel.objects[i].object_type.as_str());
        add_object_attributes(definition, &ocel.objects[i]);
        i += 1;
    }
    assert(uses.take(uses.len() as int) == uses);
    proof {
        types_come_in_order(ocel.deep_view().object_types, uses);
    }
    definitions
}

/// `longer` continues `shorter`: each definition keeps its place, its name and its attributes, and
/// more may follow.
pub open spec fn continues(longer: Seq<TypeModel>, shorter: Seq<TypeModel>) -> bool {
    &&& shorter.len() <= longer.len()
    &&& forall|i: int|
        0 <= i < shorter.len() ==> #[trigger] longer[i].name == shorter[i].name
            && shorter[i].attributes.is_prefix_of(longer[i].attributes)
}

/// Some use of the given type names the given attribute.
pub open spec fn use_names(uses: Seq<Use>, type_: Seq<char>, attribute: Seq<char>) -> bool {
    exists|k: int, m: int|
        0 <= k < uses.len() && uses[k].name == type_ && 0 <= m < uses[k].attributes.len()
            && #[trigger] uses[k].attributes[m] == attribute
}

proof fn with_attributes_adds(definition: TypeModel, names: Seq<Seq<char>>)
    ensures
        ({
            let r = with_attributes(definition, names);
            let kept = definition.attributes.len();
            &&& r.name == definition.name
            &&& definition.attributes.is_prefix_of(r.attributes)
            &&& forall|m: int| 0 <= m < names.len() ==> has_attribute(r.attributes, #[trigger] names[m])
            &&& forall|j: int|
                kept <= j < r.attributes.len() ==> (#[trigger] r.attributes[j]).value_type == "string"@
                    && names.contains(r.attributes[j].name)
        }),
    decreases names.len(),
{
    if names.len() > 0 {
        let inner = with_attributes(definition, names.drop_last());
        let r = with_attributes(definition, names);
        with_attributes_adds(definition, names.drop_last());
        if !has_attribute(inner.attributes, names.last()) {
            assert(r.attributes[inner.attributes.len() as int].name == names.last());
        }
        assert forall|m: int| 0 <= m < names.len() implies has_attribute(
            r.attributes,
            #[trigger] names[m],
        ) by {
            if m < names.len() - 1 {
                assert(names.drop_last()[m] == names[m]);
                let w = choose|w: int|
                    0 <= w < inner.attributes.len() && #[trigger] inner.attributes[w].name == names[m];
                assert(r.attributes[w].name == names[m]);
            }
        }
        assert forall|j: int|
            definition.attributes.len() <= j < r.attributes.len() implies (#[trigger] r.attributes[j]).value_type
            == "string"@ && names.contains(r.attributes[j].name) by {
            if j < inner.attributes.len() {
                assert(r.attributes[j] == inner.attributes[j]);
                let m = choose|m: int|
                    0 <= m < names.drop_last().len() && names.drop_last()[m] == inner.attributes[j].name;
                assert(names[m] == r.attributes[j].name);
            } else {
                assert(names[names.len() - 1] == r.attributes[j].name);
            }
        }
    }
}

proof fn with_type_has(definitions: Seq<TypeModel>, name: Seq<char>)
    ensures
        ({
            let r = with_type(definitions, name);
            &&& first_with_name(r, name, type_position(r, name))
            &&& continues(r, definitions)
            &&& distinct_types(definitions) ==> distinct_types(r)
            &&& forall|i: int|
                definitions.len() <= i < r.len() ==> (#[trigger] r[i]).name == name
                    && r[i].attributes.len() == 0
        }),
{
    let r = with_type(definitions, name);
    if !has_type(definitions, name) {
        assert(r[definitions.len() as int].name == name);
    }
    type_position_exists(r, name);
}

proof fn after_uses_continues(definitions: Seq<TypeModel>, uses: Seq<Use>)
    ensures
        continues(after_uses(definitions, uses), definitions),
        distinct_types(definitions) ==> distinct_types(after_uses(definitions, uses)),
    decreases uses.len(),
{
    if uses.len() > 0 {
        let before = after_uses(definitions, uses.drop_last());
        let r = after_uses(definitions, uses);
        after_uses_continues(definitions, uses.drop_last());
        after_use_continues(before, uses.last());
        assert forall|i: int| 0 <= i < definitions.len() implies #[trigger] r[i].name
            == definitions[i].name && definitions[i].attributes.is_prefix_of(r[i].attributes) by {
            assert(before[i].name == definitions[i].name);
        }
    }
}

proof fn after_use_continues(definitions: Seq<TypeModel>, used: Use)
    ensures
        continues(after_use(definitions, used), definitions),
        distinct_types(definitions) ==> distinct_types(after_use(definitions, used)),
        ({
            let r = after_use(definitions, used);
            let p = type_position(r, used.name);
            &&& first_with_name(r, used.name, p)
            &&& forall|m: int|
                0 <= m < used.attributes.len() ==> has_attribute(
                    r[p].attributes,
                    #[trigger] used.attributes[m],
                )
        }),
{
    let ensured = with_type(definitions, used.name);
    let i = type_position(ensured, used.name);
    with_type_has(definitions, used.name);
    with_attributes_adds(ensured[i], used.attributes);
    let r = after_use(definitions, used);
    assert forall|j: int| 0 <= j < r.len() implies #[trigger] r[j].name == ensured[j].name by {}
    assert(first_with_name(r, used.name, i));
    type_position_is(r, used.name, i);
}

proof fn declared_types_distinct(types: Seq<TypeModel>)
    ensures
        distinct_types(declared_types(types)),
    decreases types.len(),
{
    if types.len() > 0 {
        declared_types_distinct(types.drop_last());
    }
}

/// The declared types hold every declared name once, with the attributes of its first declaration.
pub proof fn declared_types_take_first_declaration(types: Seq<TypeModel>, k: int)
    requires
        0 <= k < types.len(),
    ensures
        distinct_types(declared_types(types)),
        has_type(declared_types(types), types[k].name),
        first_with_name(types, types[k].name, k) ==> declared_types(types).contains(types[k]),
    decreases types.len(),
{
    declared_types_distinct(types);
    let r = declared_types(types);
    let before = declared_types(types.drop_last());
    if k < types.len() - 1 {
        declared_types_take_first_declaration(types.drop_last(), k);
        assert(types.drop_last()[k] == types[k]);
        let w = choose|w: int| 0 <= w < before.len() && #[trigger] before[w].name == types[k].name;
        assert(r[w].name == types[k].name);
        if first_with_name(types, types[k].name, k) {
            assert(first_with_name(types.drop_last(), types[k].name, k)) by {
                assert forall|j: int| 0 <= j < k implies #[trigger] types.drop_last()[j].name
                    != types[k].name by {
                    assert(types[j].name != types[k].name);
                }
            }
            let v = choose|v: int| 0 <= v < before.len() && before[v] == types[k];
            assert(r[v] == types[k]);
        }
    } else {
        if has_type(before, types[k].name) {
            declared_types_are_declared(types.drop_last(), types[k].name);
            let j = choose|j: int|
                0 <= j < types.drop_last().len() && #[trigger] types.drop_last()[j].name
                    == types[k].name;
            assert(types[j].name == types[k].name);
        } else {
            assert(r[before.len() as int] == types[k]);
        }
    }
}

/// Only declared names are among the declared types.
pub proof fn declared_types_are_declared(types: Seq<TypeModel>, name: Seq<char>)
    requires
        has_type(declared_types(types), name),
    ensures
        has_type(types, name),
    decreases types.len(),
{
    let r = declared_types(types);
    if types.len() > 0 {
        let before = declared_types(types.drop_last());
        let w = choose|w: int| 0 <= w < r.len() && #[trigger] r[w].name == name;
        if w < before.len() {
            assert(before[w].name == name);
            declared_types_are_declared(types.drop_last(), name);
            let j = choose|j: int|
                0 <= j < types.drop_last().len() && #[trigger] types.drop_last()[j].name == name;
            assert(types[j].name == name);
        } else {
            assert(types[types.len() - 1].name == name);
        }
    }
}

/// No two type definitions of a log have the same name: every declaration and every use of a type
/// ends up in one definition.
pub proof fn completed_types_are_distinct(types: Seq<TypeModel>, uses: Seq<Use>)
    ensures
        distinct_types(after_uses(declared_types(types), uses)),
{
    declared_types_distinct(types);
    after_uses_continues(declared_types(types), uses);
}

/// Declared types keep their place, their name and their attributes, whatever uses follow.
pub proof fn declared_types_are_kept(types: Seq<TypeModel>, uses: Seq<Use>)
    ensures
        continues(after_uses(declared_types(types), uses), declared_types(types)),
{
    after_uses_continues(declared_types(types), uses);
}

/// Every type that is used has a definition, and that definition has every attribute that any of
/// its uses names.
pub proof fn uses_are_covered(types: Seq<TypeModel>, uses: Seq<Use>, k: int)
    requires
        0 <= k < uses.len(),
    ensures
        ({
            let r = after_uses(declared_types(types), uses);
            let p = type_position(r, uses[k].name);
            &&& first_with_name(r, uses[k].name, p)
            &&& forall|m: int|
                0 <= m < uses[k].attributes.len() ==> has_attribute(
                    r[p].attributes,
                    #[trigger] uses[k].attributes[m],
                )
        }),
    decreases uses.len(),
{
    let r = after_uses(declared_types(types), uses);
    let before = after_uses(declared_types(types), uses.drop_last());
    after_use_continues(before, uses.last());
    if k < uses.len() - 1 {
        uses_are_covered(types, uses.drop_last(), k);
        let used = uses[k];
        assert(uses.drop_last()[k] == used);
        let p = type_position(before, used.name);
        completed_types_are_distinct(types, uses);
        assert(r[p].name == used.name);
        assert(first_with_name(r, used.name, p));
        type_position_is(r, used.name, p);
        assert forall|m: int| 0 <= m < used.attributes.len() implies has_attribute(
            r[p].attributes,
            #[trigger] used.attributes[m],
        ) by {
            let w = choose|w: int|
                0 <= w < before[p].attributes.len() && #[trigger] before[p].attributes[w].name
                    == used.attributes[m];
            assert(r[p].attributes[w] == before[p].attributes[w]);
        }
    }
}

/// Nothing is invented: a definition is declared or used, and an attribute that is not declared
/// holds strings and is named by a use of its type.
pub proof fn definitions_come_from_declarations_or_uses(
    types: Seq<TypeModel>,
    uses: Seq<Use>,
    i: int,
    j: int,
)
    requires
        0 <= i < after_uses(declared_types(types), uses).len(),
    ensures
        ({
            let declared = declared_types(types);
            let r = after_uses(declared, uses);
            &&& i >= declared.len() ==> exists|k: int|
                0 <= k < uses.len() && #[trigger] uses[k].name == r[i].name
            &&& 0 <= j < r[i].attributes.len() && !(i < declared.len() && j
                < declared[i].attributes.len()) ==> r[i].attributes[j].value_type == "string"@
                && use_names(uses, r[i].name, r[i].attributes[j].name)
        }),
    decreases uses.len(),
{
    if uses.len() > 0 {
        let declared = declared_types(types);
        let r = after_uses(declared, uses);
        let shorter = uses.drop_last();
        let before = after_uses(declared, shorter);
        let used = uses.last();
        let ensured = with_type(before, used.name);
        let p = type_position(ensured, used.name);
        with_type_has(before, used.name);
        with_attributes_adds(ensured[p], used.attributes);
        after_uses_continues(declared, shorter);
        let last = uses.len() - 1;
        assert(uses[last] == used);
        if i < before.len() {
            definitions_come_from_declarations_or_uses(types, shorter, i, j);
            assert(before[i].name == r[i].name);
            if i >= declared.len() {
                let k = choose|k: int|
                    0 <= k < shorter.len() && #[trigger] shorter[k].name == before[i].name;
                assert(uses[k].name == r[i].name);
            }
        } else {
            assert(uses[last].name == r[i].name);
        }
        if 0 <= j < r[i].attributes.len() && !(i < declared.len() && j
            < declared[i].attributes.len()) {
            let attribute = r[i].attributes[j];
            if i < before.len() && j < before[i].attributes.len() {
                assert(attribute == before[i].attributes[j]);
                let (k, m) = choose|k: int, m: int|
                    0 <= k < shorter.len() && shorter[k].name == before[i].name && 0 <= m
                        < shorter[k].attributes.len() && #[trigger] shorter[k].attributes[m]
                        == attribute.name;
                assert(uses[k].attributes[m] == attribute.name);
            } else {
                assert(i == p);
                let m = choose|m: int|
                    0 <= m < used.attributes.len() && used.attributes[m] == attribute.name;
                assert(uses[last].attributes[m] == attribute.name);
            }
        }
    }
}

/// The names that are not known yet, each once, in the order of their first occurrence.
pub open spec fn new_names(known: Seq<Seq<char>>, names: Seq<Seq<char>>) -> Seq<Seq<char>>
    decreases names.len(),
{
    if names.len() == 0 {
        Seq::empty()
    } else {
        let before = new_names(known, names.drop_last());
        if known.contains(names.last()) || before.contains(names.last()) {
            before
        } else {
            before.push(names.last())
        }
    }
}

/// The names of types.
pub open spec fn type_names(types: Seq<TypeModel>) -> Seq<Seq<char>> {
    types.map_values(|t: TypeModel| t.name)
}

/// The names of attributes.
pub open spec fn attribute_names(attributes: Seq<AttributeDefinitionModel>) -> Seq<Seq<char>> {
    attributes.map_values(|a: AttributeDefinitionModel| a.name)
}

/// The names of the types that are used.
pub open spec fn used_names(uses: Seq<Use>) -> Seq<Seq<char>> {
    uses.map_values(|u: Use| u.name)
}

/// The attributes with which a type is declared first, if it is declared.
pub open spec fn declared_attributes(types: Seq<TypeModel>, name: Seq<char>) -> Seq<
    AttributeDefinitionModel,
> {
    if has_type(types, name) {
        types[type_position(types, name)].attributes
    } else {
        Seq::empty()
    }
}

/// The names of all attributes that come with the uses of a type, one use after the other.
pub open spec fn used_attributes(uses: Seq<Use>, name: Seq<char>) -> Seq<Seq<char>>
    decreases uses.len(),
{
    if uses.len() == 0 {
        Seq::empty()
    } else {
        let before = used_attributes(uses.drop_last(), name);
        if uses.last().name == name {
            before + uses.last().attributes
        } else {
            before
        }
    }
}

/// Attributes of the given names, which hold strings.
pub open spec fn string_attributes(names: Seq<Seq<char>>) -> Seq<AttributeDefinitionModel> {
    names.map_values(
        |name: Seq<char>| AttributeDefinitionModel { name, value_type: "string"@ },
    )
}

/// The attributes of a type: those of its first declaration, and behind them one of strings for
/// each further name that its uses bring, in the order of first occurrence.
pub open spec fn completed_attributes(
    types: Seq<TypeModel>,
    uses: Seq<Use>,
    name: Seq<char>,
) -> Seq<AttributeDefinitionModel> {
    let declared = declared_attributes(types, name);
    declared + string_attributes(
        new_names(attribute_names(declared), used_attributes(uses, name)),
    )
}

/// The definition of a type.
pub open spec fn completed_type(types: Seq<TypeModel>, uses: Seq<Use>, name: Seq<char>) -> TypeModel {
    TypeModel { name, attributes: completed_attributes(types, uses, name) }
}

/// The names of all types, each once, in the order of first occurrence, declared ones first.
pub open spec fn completed_names(types: Seq<TypeModel>, uses: Seq<Use>) -> Seq<Seq<char>> {
    new_names(Seq::empty(), type_names(types) + used_names(uses))
}

/// The definitions of all types.
pub open spec fn completed_types(types: Seq<TypeModel>, uses: Seq<Use>) -> Seq<TypeModel> {
    completed_names(types, uses).map_values(|name: Seq<char>| completed_type(types, uses, name))
}

proof fn new_names_contains(known: Seq<Seq<char>>, names: Seq<Seq<char>>, name: Seq<char>)
    ensures
        new_names(known, names).contains(name) <==> names.contains(name) && !known.contains(name),
    decreases names.len(),
{
    if names.len() > 0 {
        let start = names.drop_last();
        let before = new_names(known, start);
        new_names_contains(known, start, name);
        new_names_contains(known, start, names.last());
        assert(names == start.push(names.last()));
        assert(names.contains(name) <==> start.contains(name) || names.last() == name) by {
            broadcast use vstd::seq_lib::group_seq_properties;

        }
        assert(before.push(names.last()).contains(name) <==> before.contains(name) || names.last()
            == name) by {
            broadcast use vstd::seq_lib::group_seq_properties;

        }
    }
}

proof fn type_names_contain(types: Seq<TypeModel>, name: Seq<char>)
    ensures
        type_names(types).contains(name) <==> has_type(types, name),
{
    let names = type_names(types);
    if names.contains(name) {
        let i = choose|i: int| 0 <= i < names.len() && names[i] == name;
        assert(types[i].name == name);
    }
    if has_type(types, name) {
        let i = choose|i: int| 0 <= i < types.len() && #[trigger] types[i].name == name;
        assert(names[i] == name);
    }
}

proof fn attribute_names_contain(attributes: Seq<AttributeDefinitionModel>, name: Seq<char>)
    ensures
        attribute_names(attributes).contains(name) <==> has_attribute(attributes, name),
{
    let names = attribute_names(attributes);
    if names.contains(name) {
        let i = choose|i: int| 0 <= i < names.len() && names[i] == name;
        assert(attributes[i].name == name);
    }
    if has_attribute(attributes, name) {
        let i = choose|i: int| 0 <= i < attributes.len() && #[trigger] attributes[i].name == name;
        assert(names[i] == name);
    }
}

/// Completing attributes by further names is completing them by all names at once.
proof fn with_attributes_in_order(
    definition: TypeModel,
    declared: Seq<AttributeDefinitionModel>,
    first: Seq<Seq<char>>,
    names: Seq<Seq<char>>,
)
    requires
        definition.attributes == declared + string_attributes(
            new_names(attribute_names(declared), first),
        ),
    ensures
        with_attributes(definition, names).name == definition.name,
        with_attributes(definition, names).attributes == declared + string_attributes(
            new_names(attribute_names(declared), first + names),
        ),
    decreases names.len(),
{
    if names.len() == 0 {
        assert(first + names == first);
    } else {
        let start = names.drop_last();
        let known = attribute_names(declared);
        let inner = with_attributes(definition, start);
        let fresh = new_names(known, first + start);
        let name = names.last();
        with_attributes_in_order(definition, declared, first, start);
        assert((first + names).drop_last() == first + start);
        assert((first + names).last() == name);
        attribute_names_contain(inner.attributes, name);
        assert(attribute_names(inner.attributes) == known + fresh);
        assert((known + fresh).contains(name) <==> known.contains(name) || fresh.contains(name)) by {
            broadcast use vstd::seq_lib::group_seq_properties;

        }
        assert(string_attributes(fresh.push(name)) == string_attributes(fresh).push(
            AttributeDefinitionModel { name, value_type: "string"@ },
        ));
        assert((declared + string_attributes(fresh)).push(
            AttributeDefinitionModel { name, value_type: "string"@ },
        ) == declared + string_attributes(fresh.push(name)));
    }
}

/// The attributes of a first declaration are those of the longer list too.
proof fn declared_attributes_of_more(types: Seq<TypeModel>, name: Seq<char>)
    requires
        types.len() > 0,
    ensures
        has_type(types.drop_last(), name) ==> declared_attributes(types, name)
            == declared_attributes(types.drop_last(), name),
        !has_type(types.drop_last(), name) && types.last().name == name ==> declared_attributes(
            types,
            name,
        ) == types.last().attributes,
{
    let start = types.drop_last();
    if has_type(start, name) {
        type_position_exists(start, name);
        let p = type_position(start, name);
        assert(types[p].name == name);
        assert forall|j: int| 0 <= j < p implies #[trigger] types[j].name != name by {
            assert(start[j].name != name);
        }
        assert(first_with_name(types, name, p));
        type_position_is(types, name, p);
    } else if types.last().name == name {
        let p = types.len() - 1;
        assert forall|j: int| 0 <= j < p implies #[trigger] types[j].name != name by {
            assert(start[j].name != name);
        }
        assert(first_with_name(types, name, p));
        type_position_is(types, name, p);
    }
}

proof fn declared_types_in_order(types: Seq<TypeModel>)
    ensures
        declared_types(types) == completed_types(types, Seq::empty()),
    decreases types.len(),
{
    let none = Seq::<Use>::empty();
    assert(type_names(types) + used_names(none) == type_names(types));
    let names = new_names(Seq::empty(), type_names(types));
    assert forall|name: Seq<char>| #[trigger] completed_type(types, none, name).attributes
        == declared_attributes(types, name) by {
        assert(string_attributes(Seq::empty()) == Seq::<AttributeDefinitionModel>::empty());
        assert(declared_attributes(types, name) + Seq::<AttributeDefinitionModel>::empty()
            == declared_attributes(types, name));
    }
    if types.len() > 0 {
        let start = types.drop_last();
        let last = types.last();
        let before = declared_types(start);
        let old_names = new_names(Seq::empty(), type_names(start));
        declared_types_in_order(start);
        assert(type_names(start) + used_names(none) == type_names(start));
        assert(type_names(types).drop_last() == type_names(start));
        assert(type_names(before) == old_names);
        type_names_contain(before, last.name);
        new_names_contains(Seq::empty(), type_names(start), last.name);
        type_names_contain(start, last.name);
        assert forall|i: int| 0 <= i < old_names.len() implies #[trigger] before[i]
            == completed_type(types, none, old_names[i]) by {
            let name = old_names[i];
            assert(old_names.contains(name));
            new_names_contains(Seq::empty(), type_names(start), name);
            type_names_contain(start, name);
            declared_attributes_of_more(types, name);
            assert(completed_type(start, none, name).attributes == declared_attributes(start, name)) by {
                assert(string_attributes(Seq::empty()) == Seq::<AttributeDefinitionModel>::empty());
                assert(declared_attributes(start, name) + Seq::<AttributeDefinitionModel>::empty()
                    == declared_attributes(start, name));
            }
        }
        declared_attributes_of_more(types, last.name);
        if !has_type(before, last.name) {
            assert(names == old_names.push(last.name));
        } else {
            assert(names == old_names);
        }
    }
    assert(declared_types(types) == completed_types(types, none));
}

proof fn unused_names_have_no_attributes(uses: Seq<Use>, name: Seq<char>)
    requires
        !used_names(uses).contains(name),
    ensures
        used_attributes(uses, name) == Seq::<Seq<char>>::empty(),
    decreases uses.len(),
{
    if uses.len() > 0 {
        let start = uses.drop_last();
        assert(used_names(uses)[uses.len() - 1] == uses.last().name);
        if used_names(start).contains(name) {
            let k = choose|k: int| 0 <= k < start.len() && used_names(start)[k] == name;
            assert(used_names(uses)[k] == name);
        }
        unused_names_have_no_attributes(start, name);
    }
}

/// The type definitions of a log, stated directly: every type that is declared or used has one, in
/// the order of first occurrence, declared ones first; it holds the attributes of the first
/// declaration and behind them, each once and in the order of first occurrence, the further ones
/// that its uses bring.
pub proof fn types_come_in_order(types: Seq<TypeModel>, uses: Seq<Use>)
    ensures
        after_uses(declared_types(types), uses) == completed_types(types, uses),
    decreases uses.len(),
{
    if uses.len() == 0 {
        declared_types_in_order(types);
        assert(uses == Seq::<Use>::empty());
    } else {
        let start = uses.drop_last();
        let used = uses.last();
        let before = after_uses(declared_types(types), start);
        let old_names = completed_names(types, start);
        let names = completed_names(types, uses);
        let all = type_names(types) + used_names(start);
        types_come_in_order(types, start);
        completed_types_are_distinct(types, start);
        assert((type_names(types) + used_names(uses)).drop_last() == all);
        assert((type_names(types) + used_names(uses)).last() == used.name);
        assert(type_names(before) == old_names);
        type_names_contain(before, used.name);
        new_names_contains(Seq::empty(), all, used.name);
        let ensured = with_type(before, used.name);
        let p = type_position(ensured, used.name);
        with_type_has(before, used.name);
        assert(names == if has_type(before, used.name) {
            old_names
        } else {
            old_names.push(used.name)
        });
        if !has_type(before, used.name) {
            assert(all.contains(used.name) <==> type_names(types).contains(used.name) || used_names(
                start,
            ).contains(used.name)) by {
                broadcast use vstd::seq_lib::group_seq_properties;

            }
            type_names_contain(types, used.name);
            unused_names_have_no_attributes(start, used.name);
            assert(string_attributes(Seq::empty()) == Seq::<AttributeDefinitionModel>::empty());
            assert(completed_attributes(types, start, used.name) == Seq::<
                AttributeDefinitionModel,
            >::empty());
        }
        assert forall|i: int| 0 <= i < names.len() implies #[trigger] ensured[i] == completed_type(
            types,
            start,
            names[i],
        ) by {}
        assert(names[p] == used.name);
        with_attributes_in_order(
            ensured[p],
            declared_attributes(types, used.name),
            used_attributes(start, used.name),
            used.attributes,
        );
        let r = after_uses(declared_types(types), uses);
        assert forall|i: int| 0 <= i < names.len() implies #[trigger] r[i] == completed_type(
            types,
            uses,
            names[i],
        ) by {
            if i != p {
                assert(ensured[i].name != ensured[p].name);
            }
        }
        assert(r == completed_types(types, uses));
    }
}

/// New names differ from each other.
proof fn new_names_differ(known: Seq<Seq<char>>, names: Seq<Seq<char>>)
    ensures
        new_names(known, names).no_duplicates(),
    decreases names.len(),
{
    if names.len() > 0 {
        new_names_differ(known, names.drop_last());
    }
}

/// Of two new names the one that comes first has an occurrence before all those of the other.
proof fn new_names_in_order(known: Seq<Seq<char>>, names: Seq<Seq<char>>, a: int, b: int)
    requires
        0 <= a < b < new_names(known, names).len(),
    ensures
        exists|m: int|
            {
                &&& 0 <= m < names.len()
                &&& #[trigger] names[m] == new_names(known, names)[a]
                &&& forall|n: int|
                    0 <= n <= m ==> #[trigger] names[n] != new_names(known, names)[b]
            },
    decreases names.len(),
{
    if names.len() > 0 {
        let start = names.drop_last();
        let before = new_names(known, start);
        let r = new_names(known, names);
        if b < before.len() {
            new_names_in_order(known, start, a, b);
            let m = choose|m: int|
                {
                    &&& 0 <= m < start.len()
                    &&& #[trigger] start[m] == before[a]
                    &&& forall|n: int| 0 <= n <= m ==> #[trigger] start[n] != before[b]
                };
            assert(names[m] == r[a]);
            assert forall|n: int| 0 <= n <= m implies #[trigger] names[n] != r[b] by {
                assert(start[n] != before[b]);
            }
        } else {
            assert(before.contains(before[a]));
            new_names_contains(known, start, before[a]);
            let m = choose|m: int| 0 <= m < start.len() && start[m] == before[a];
            assert(names[m] == r[a]);
            new_names_contains(known, start, r[b]);
            assert forall|n: int| 0 <= n <= m implies #[trigger] names[n] != r[b] by {
                assert(start.contains(start[n]));
            }
        }
    }
}

proof fn used_attributes_come_from_uses(uses: Seq<Use>, name: Seq<char>, attribute: Seq<char>)
    requires
        used_attributes(uses, name).contains(attribute),
    ensures
        exists|k: int, m: int|
            0 <= k < uses.len() && uses[k].name == name && 0 <= m < uses[k].attributes.len()
                && #[trigger] uses[k].attributes[m] == attribute,
    decreases uses.len(),
{
    if uses.len() > 0 {
        let start = uses.drop_last();
        let last = uses.len() - 1;
        let before = used_attributes(start, name);
        let all = used_attributes(uses, name);
        let q = choose|q: int| 0 <= q < all.len() && all[q] == attribute;
        if q < before.len() {
            assert(before[q] == attribute);
            used_attributes_come_from_uses(start, name, attribute);
            let (k, m) = choose|k: int, m: int|
                0 <= k < start.len() && start[k].name == name && 0 <= m < start[k].attributes.len()
                    && #[trigger] start[k].attributes[m] == attribute;
            assert(uses[k].attributes[m] == attribute);
        } else {
            assert(uses[last].attributes[q - before.len()] == attribute);
        }
    }
}

/// A further declaration comes last, as it is, where its name is new, and else changes nothing.
pub proof fn declarations_come_one_by_one(types: Seq<TypeModel>, next: TypeModel)
    ensures
        declared_types(Seq::empty()) == Seq::<TypeModel>::empty(),
        declared_types(types.push(next)) == if exists|k: int|
            0 <= k < types.len() && #[trigger] types[k].name == next.name {
            declared_types(types)
        } else {
            declared_types(types).push(next)
        },
{
    assert(types.push(next).drop_last() == types);
    if has_type(types, next.name) {
        let k = choose|k: int| 0 <= k < types.len() && #[trigger] types[k].name == next.name;
        declared_types_take_first_declaration(types, k);
    } else if has_type(declared_types(types), next.name) {
        declared_types_are_declared(types, next.name);
    }
}

/// A log without events and objects has the types that it declares.
pub proof fn types_without_use_are_declared(ocel: OcelModel)
    ensures
        ocel.events.len() == 0 ==> event_types_of(ocel) == declared_types(ocel.event_types),
        ocel.objects.len() == 0 ==> object_types_of(ocel) == declared_types(ocel.object_types),
{
}

/// A definition that is asked for is there: the list keeps what it has, and a type that it lacks comes
/// last, without attributes.
pub proof fn asked_types_are_there(definitions: Seq<TypeModel>, name: Seq<char>)
    ensures
        ({
            let ensured = with_type(definitions, name);
            let i = type_position(ensured, name);
            &&& 0 <= i < ensured.len()
            &&& ensured[i].name == name
            &&& forall|j: int| 0 <= j < i ==> #[trigger] ensured[j].name != name
            &&& ensured.take(definitions.len() as int) == definitions
            &&& i < definitions.len() ==> ensured.len() == definitions.len()
            &&& i >= definitions.len() ==> ensured.len() == definitions.len() + 1
                && ensured[i].attributes.len() == 0
        }),
{
    with_type_has(definitions, name);
    let ensured = with_type(definitions, name);
    let i = type_position(ensured, name);
    if i < definitions.len() {
        assert(definitions[i].name == name);
    }
}

/// An attribute that is added is there: a definition that has one of the name stays as it is, and
/// else the attribute comes last.
pub proof fn added_attributes_are_there(
    definition: TypeModel,
    name: Seq<char>,
    value_type: Seq<char>,
)
    ensures
        ({
            let r = with_attribute(definition, name, value_type);
            let n = definition.attributes.len();
            &&& r.name == definition.name
            &&& (exists|a: int| 0 <= a < n && #[trigger] definition.attributes[a].name == name) ==> r
                == definition
            &&& (forall|a: int| 0 <= a < n ==> #[trigger] definition.attributes[a].name != name) ==> {
                &&& r.attributes.len() == n + 1
                &&& r.attributes.take(n as int) == definition.attributes
                &&& r.attributes.last().name == name
                &&& r.attributes.last().value_type == value_type
            }
        }),
{
    let n = definition.attributes.len();
    if forall|a: int| 0 <= a < n ==> #[trigger] definition.attributes[a].name != name {
        assert(!has_attribute(definition.attributes, name));
    }
}

/// What one use does: its type keeps its place, or comes last where it is new, and gets the new names
/// behind the attributes it has.
proof fn after_use_directly(definitions: Seq<TypeModel>, used: Use)
    requires
        distinct_types(definitions),
    ensures
        ({
            let ensured = with_type(definitions, used.name);
            let p = type_position(ensured, used.name);
            let after = after_use(definitions, used);
            let kept = ensured[p].attributes;
            &&& first_with_name(ensured, used.name, p)
            &&& after.len() == ensured.len()
            &&& after[p].name == used.name
            &&& after[p].attributes == kept + string_attributes(
                new_names(attribute_names(kept), used.attributes),
            )
            &&& forall|i: int| 0 <= i < after.len() && i != p ==> #[trigger] after[i] == ensured[i]
            &&& forall|i: int| 0 <= i < after.len() && i != p ==> (#[trigger] after[i]).name != used.name
            &&& p >= definitions.len() ==> kept.len() == 0
        }),
{
    let ensured = with_type(definitions, used.name);
    let p = type_position(ensured, used.name);
    with_type_has(definitions, used.name);
    let kept = ensured[p].attributes;
    assert(Seq::<Seq<char>>::empty() + used.attributes == used.attributes);
    assert(kept + string_attributes(Seq::empty()) == kept);
    with_attributes_in_order(ensured[p], kept, Seq::empty(), used.attributes);
    assert forall|i: int| 0 <= i < ensured.len() && i != p implies (#[trigger] ensured[i]).name
        != used.name by {
        assert(ensured[i].name != ensured[p].name);
    }
}
/// Attributes with the new ones among the given names behind them.
spec fn furthered(kept: Seq<AttributeDefinitionModel>, names: Seq<Seq<char>>) -> Seq<
    AttributeDefinitionModel,
> {
    kept + string_attributes(new_names(attribute_names(kept), names))
}

proof fn furthered_keeps(kept: Seq<AttributeDefinitionModel>, names: Seq<Seq<char>>)
    ensures
        ({
            let now = furthered(kept, names);
            &&& kept.len() <= now.len()
            &&& forall|a: int| 0 <= a < kept.len() ==> #[trigger] now[a] == kept[a]
            &&& forall|a: int| kept.len() <= a < now.len() ==> (#[trigger] now[a]).value_type == "string"@
            &&& forall|a: int, b: int|
                0 <= a < b < now.len() && kept.len() <= b ==> (#[trigger] now[a]).name
                    != (#[trigger] now[b]).name
        }),
{
    let now = furthered(kept, names);
    let known = attribute_names(kept);
    let fresh = new_names(known, names);
    new_names_differ(known, names);
    assert forall|a: int, b: int| 0 <= a < b < now.len() && kept.len() <= b implies (#[trigger] now[a]).name
        != (#[trigger] now[b]).name by {
        let name = fresh[b - kept.len()];
        assert(fresh.contains(name));
        new_names_contains(known, names, name);
        if a < kept.len() {
            assert(known[a] == now[a].name);
        } else {
            assert(fresh[a - kept.len()] != name);
        }
    }
}

proof fn furthered_covers(kept: Seq<AttributeDefinitionModel>, names: Seq<Seq<char>>, m: int)
    requires
        0 <= m < names.len(),
    ensures
        exists|a: int|
            0 <= a < furthered(kept, names).len() && (#[trigger] furthered(kept, names)[a]).name
                == names[m],
{
    let now = furthered(kept, names);
    let known = attribute_names(kept);
    let fresh = new_names(known, names);
    let name = names[m];
    new_names_contains(known, names, name);
    assert(names.contains(name));
    if fresh.contains(name) {
        let f = choose|f: int| 0 <= f < fresh.len() && fresh[f] == name;
        assert(now[kept.len() + f].name == name);
    } else {
        let f = choose|f: int| 0 <= f < known.len() && known[f] == name;
        assert(now[f].name == name);
    }
}

proof fn furthered_in_order(
    kept: Seq<AttributeDefinitionModel>,
    names: Seq<Seq<char>>,
    a: int,
    b: int,
)
    requires
        kept.len() <= a < b <= furthered(kept, names).len(),
    ensures
        exists|m: int|
            {
                &&& 0 <= m < names.len()
                &&& #[trigger] names[m] == furthered(kept, names)[a].name
                &&& forall|n: int|
                    0 <= n <= m && b < furthered(kept, names).len() ==> #[trigger] names[n]
                        != furthered(kept, names)[b].name
            },
{
    let now = furthered(kept, names);
    let known = attribute_names(kept);
    let fresh = new_names(known, names);
    if b < now.len() {
        new_names_in_order(known, names, a - kept.len(), b - kept.len());
        let m = choose|m: int|
            {
                &&& 0 <= m < names.len()
                &&& #[trigger] names[m] == fresh[a - kept.len()]
                &&& forall|n: int| 0 <= n <= m ==> #[trigger] names[n] != fresh[b - kept.len()]
            };
        assert(names[m] == now[a].name);
    } else {
        let name = fresh[a - kept.len()];
        assert(fresh.contains(name));
        new_names_contains(known, names, name);
        let m = choose|m: int| 0 <= m < names.len() && names[m] == name;
        assert(names[m] == now[a].name);
    }
}

/// Every event of a log finds a type of just its name among the event types, with an attribute of
/// just the name of each of its own.
pub proof fn events_find_their_types(ocel: Ocel, k: int, m: int)
    requires
        0 <= k < ocel.events@.len(),
        0 <= m < ocel.events@[k].attributes@.len(),
    ensures
        ({
            let found = event_types_of(ocel.deep_view());
            exists|i: int, a: int|
                {
                    &&& 0 <= i < found.len()
                    &&& found[i].name == ocel.events@[k].event_type@
                    &&& 0 <= a < found[i].attributes.len()
                    &&& #[trigger] found[i].attributes[a].name
                        == ocel.events@[k].attributes@[m].name@
                }
        }),
{
    let found = event_types_of(ocel.deep_view());
    let types = ocel.deep_view().event_types;
    let uses = ocel.deep_view().events.map_values(|one: EventModel| event_use(one));
    uses_are_covered(types, uses, k);
    let i = type_position(found, uses[k].name);
    let name = uses[k].attributes[m];
    assert(has_attribute(found[i].attributes, name));
    let a = choose|a: int|
        0 <= a < found[i].attributes.len() && #[trigger] found[i].attributes[a].name == name;
    assert(found[i].attributes[a].name == ocel.events@[k].attributes@[m].name@);
}

/// Every event of a log, with or without attributes, finds exactly one event type of its name.
pub proof fn events_have_one_type(ocel: Ocel, k: int)
    requires
        0 <= k < ocel.events@.len(),
    ensures
        ({
            let found = event_types_of(ocel.deep_view());
            &&& exists|i: int|
                0 <= i < found.len() && #[trigger] found[i].name == ocel.events@[k].event_type@
            &&& forall|i: int, j: int|
                0 <= i < j < found.len() ==> #[trigger] found[i].name != #[trigger] found[j].name
        }),
{
    let found = event_types_of(ocel.deep_view());
    let types = ocel.deep_view().event_types;
    let uses = ocel.deep_view().events.map_values(|one: EventModel| event_use(one));
    uses_are_covered(types, uses, k);
    completed_types_are_distinct(types, uses);
    let i = type_position(found, uses[k].name);
    assert(found[i].name == ocel.events@[k].event_type@);
}

/// A event type is declared by the log or is the type of one of its events.
pub proof fn event_types_come_from_the_log(ocel: Ocel, i: int)
    requires
        0 <= i < event_types_of(ocel.deep_view()).len(),
    ensures
        ({
            let name = event_types_of(ocel.deep_view())[i].name;
            ||| exists|k: int|
                0 <= k < ocel.event_types@.len() && (#[trigger] ocel.event_types@[k]).name@ == name
            ||| exists|k: int|
                0 <= k < ocel.events@.len() && (#[trigger] ocel.events@[k]).event_type@ == name
        }),
{
    let found = event_types_of(ocel.deep_view());
    let types = ocel.deep_view().event_types;
    let uses = ocel.deep_view().events.map_values(|one: EventModel| event_use(one));
    types_come_in_order(types, uses);
    let names = completed_names(types, uses);
    let all = type_names(types) + used_names(uses);
    assert(names.contains(names[i]));
    new_names_contains(Seq::empty(), all, names[i]);
    let p = choose|p: int| 0 <= p < all.len() && all[p] == names[i];
    if p < types.len() {
        assert(ocel.event_types@[p].name@ == found[i].name);
    } else {
        assert(ocel.events@[p - types.len()].event_type@ == found[i].name);
    }
}

/// The first declaration of an event type is kept with its attributes in their places.
pub proof fn event_declarations_are_kept(ocel: Ocel, k: int)
    requires
        0 <= k < ocel.event_types@.len(),
        forall|l: int|
            0 <= l < k ==> (#[trigger] ocel.event_types@[l]).name@ != ocel.event_types@[k].name@,
    ensures
        ({
            let found = event_types_of(ocel.deep_view());
            let declared = ocel.event_types@[k];
            exists|i: int|
                {
                    &&& 0 <= i < found.len()
                    &&& (#[trigger] found[i]).name == declared.name@
                    &&& declared.attributes@.len() <= found[i].attributes.len()
                    &&& forall|a: int|
                        0 <= a < declared.attributes@.len() ==> (#[trigger] found[i].attributes[a]).name
                            == declared.attributes@[a].name@ && found[i].attributes[a].value_type
                            == declared.attributes@[a].value_type@
                }
        }),
{
    let found = event_types_of(ocel.deep_view());
    let types = ocel.deep_view().event_types;
    let uses = ocel.deep_view().events.map_values(|one: EventModel| event_use(one));
    let name = ocel.event_types@[k].name@;
    let names = completed_names(types, uses);
    let all = type_names(types) + used_names(uses);
    types_come_in_order(types, uses);
    assert(types[k].name == name);
    assert(all[k] == name);
    new_names_contains(Seq::empty(), all, name);
    let i = choose|i: int| 0 <= i < names.len() && names[i] == name;
    assert(found[i] == completed_type(types, uses, name));
    assert forall|l: int| 0 <= l < k implies #[trigger] types[l].name != name by {
        assert(ocel.event_types@[l].name@ != name);
    }
    type_position_is(types, name, k);
    assert(declared_attributes(types, name) == types[k].attributes);
    assert(found[i].name == name);
}

/// An attribute of an event type that is not one of its first declaration holds strings, has another
/// name than those before it, and is one that some event of the type has.
pub proof fn event_attributes_come_from_the_log(ocel: Ocel, i: int, a: int)
    requires
        0 <= i < event_types_of(ocel.deep_view()).len(),
        0 <= a < event_types_of(ocel.deep_view())[i].attributes.len(),
        forall|k: int|
            0 <= k < ocel.event_types@.len() && (#[trigger] ocel.event_types@[k]).name@ == event_types_of(
                ocel.deep_view(),
            )[i].name ==> a >= ocel.event_types@[k].attributes@.len(),
    ensures
        ({
            let definition = event_types_of(ocel.deep_view())[i];
            &&& definition.attributes[a].value_type == "string"@
            &&& forall|b: int|
                0 <= b < a ==> #[trigger] definition.attributes[b].name != definition.attributes[a].name
            &&& exists|k: int, m: int|
                {
                    &&& 0 <= k < ocel.events@.len()
                    &&& ocel.events@[k].event_type@ == definition.name
                    &&& 0 <= m < ocel.events@[k].attributes@.len()
                    &&& (#[trigger] ocel.events@[k].attributes@[m]).name@
                        == definition.attributes[a].name
                }
        }),
{
    let found = event_types_of(ocel.deep_view());
    let types = ocel.deep_view().event_types;
    let uses = ocel.deep_view().events.map_values(|one: EventModel| event_use(one));
    types_come_in_order(types, uses);
    let name = found[i].name;
    let kept = declared_attributes(types, name);
    if has_type(types, name) {
        type_position_exists(types, name);
        let p = type_position(types, name);
        assert(ocel.event_types@[p].name@ == name);
        assert(kept.len() == ocel.event_types@[p].attributes@.len());
    }
    let brought = used_attributes(uses, name);
    let fresh = new_names(attribute_names(kept), brought);
    let new_name = fresh[a - kept.len()];
    assert(found[i] == completed_type(types, uses, name));
    assert(found[i].attributes[a].name == new_name);
    new_names_differ(attribute_names(kept), brought);
    assert(fresh.contains(new_name));
    new_names_contains(attribute_names(kept), brought, new_name);
    used_attributes_come_from_uses(uses, name, new_name);
    let (k, m) = choose|k: int, m: int|
        0 <= k < uses.len() && uses[k].name == name && 0 <= m < uses[k].attributes.len()
            && #[trigger] uses[k].attributes[m] == new_name;
    assert(ocel.events@[k].attributes@[m].name@ == new_name);
    assert forall|b: int| 0 <= b < a implies #[trigger] found[i].attributes[b].name
        != found[i].attributes[a].name by {
        if b < kept.len() {
            assert(attribute_names(kept)[b] == found[i].attributes[b].name);
        } else {
            assert(found[i].attributes[b].name == fresh[b - kept.len()]);
        }
    }
}

/// What a further event does to the event types: its type keeps its place, or comes last where it is
/// new, and every other type stays as it is.
pub proof fn event_types_grow_with_the_log(ocel: OcelModel, event: EventModel)
    ensures
        ({
            let before = event_types_of(ocel);
            let after = event_types_of(OcelModel { events: ocel.events.push(event), ..ocel });
            let known = exists|i: int| 0 <= i < before.len() && #[trigger] before[i].name == event.event_type;
            &&& after.len() == if known {
                before.len()
            } else {
                before.len() + 1
            }
            &&& !known ==> after[before.len() as int].name == event.event_type
            &&& forall|i: int| 0 <= i < before.len() ==> (#[trigger] after[i]).name == before[i].name
            &&& forall|i: int|
                0 <= i < before.len() && before[i].name != event.event_type ==> #[trigger] after[i]
                    == before[i]
        }),
{
    let longer = OcelModel { events: ocel.events.push(event), ..ocel };
    let before = event_types_of(ocel);
    let after = event_types_of(longer);
    let uses = ocel.events.map_values(|one: EventModel| event_use(one));
    let used = event_use(event);
    let all = longer.events.map_values(|one: EventModel| event_use(one));
    assert(all.last() == used);
    assert(all.drop_last() == uses);
    completed_types_are_distinct(ocel.event_types, uses);
    after_use_directly(before, used);
    let ensured = with_type(before, used.name);
    let p = type_position(ensured, used.name);
    assert(used.name == event.event_type);
}

proof fn event_furthers_its_type(ocel: OcelModel, event: EventModel, i: int)
    requires
        ({
            let after = event_types_of(OcelModel { events: ocel.events.push(event), ..ocel });
            0 <= i < after.len() && after[i].name == event.event_type
        }),
    ensures
        ({
            let before = event_types_of(ocel);
            let now = event_types_of(OcelModel { events: ocel.events.push(event), ..ocel })[i].attributes;
            let kept = if i < before.len() {
                before[i].attributes
            } else {
                Seq::empty()
            };
            now == furthered(kept, event.attributes.map_values(|one: EventAttributeModel| one.name))
        }),
{
    let longer = OcelModel { events: ocel.events.push(event), ..ocel };
    let before = event_types_of(ocel);
    let after = event_types_of(longer);
    let uses = ocel.events.map_values(|one: EventModel| event_use(one));
    let used = event_use(event);
    let all = longer.events.map_values(|one: EventModel| event_use(one));
    assert(all.last() == used);
    assert(all.drop_last() == uses);
    completed_types_are_distinct(ocel.event_types, uses);
    after_use_directly(before, used);
    let ensured = with_type(before, used.name);
    let p = type_position(ensured, used.name);
    assert(i == p);
    assert(p < before.len() ==> ensured[p] == before[p]);
    assert(p >= before.len() ==> ensured[p].attributes == Seq::<AttributeDefinitionModel>::empty());
    assert(used.attributes == event.attributes.map_values(|one: EventAttributeModel| one.name));
}

/// The type of a further event keeps the attributes it has, and what comes behind them holds strings
/// and differs by name from all that comes before.
pub proof fn event_attributes_grow_with_the_log(ocel: OcelModel, event: EventModel, i: int)
    requires
        ({
            let after = event_types_of(OcelModel { events: ocel.events.push(event), ..ocel });
            0 <= i < after.len() && after[i].name == event.event_type
        }),
    ensures
        ({
            let before = event_types_of(ocel);
            let now = event_types_of(OcelModel { events: ocel.events.push(event), ..ocel })[i].attributes;
            let kept = if i < before.len() {
                before[i].attributes
            } else {
                Seq::empty()
            };
            &&& kept.len() <= now.len()
            &&& forall|a: int| 0 <= a < kept.len() ==> #[trigger] now[a] == kept[a]
            &&& forall|a: int| kept.len() <= a < now.len() ==> (#[trigger] now[a]).value_type == "string"@
            &&& forall|a: int, b: int|
                0 <= a < b < now.len() && kept.len() <= b ==> (#[trigger] now[a]).name
                    != (#[trigger] now[b]).name
        }),
{
    let before = event_types_of(ocel);
    let now = event_types_of(OcelModel { events: ocel.events.push(event), ..ocel })[i].attributes;
    let kept = if i < before.len() {
        before[i].attributes
    } else {
        Seq::empty()
    };
    let names = event.attributes.map_values(|one: EventAttributeModel| one.name);
    event_furthers_its_type(ocel, event, i);
    furthered_keeps(kept, names);
}

/// The type of a further event has an attribute of the name of each attribute of the event.
pub proof fn event_attributes_are_taken_up(ocel: OcelModel, event: EventModel, i: int, m: int)
    requires
        ({
            let after = event_types_of(OcelModel { events: ocel.events.push(event), ..ocel });
            0 <= i < after.len() && after[i].name == event.event_type
        }),
        0 <= m < event.attributes.len(),
    ensures
        ({
            let now = event_types_of(OcelModel { events: ocel.events.push(event), ..ocel })[i].attributes;
            exists|a: int|
                0 <= a < now.len() && (#[trigger] now[a]).name == event.attributes[m].name
        }),
{
    let before = event_types_of(ocel);
    let now = event_types_of(OcelModel { events: ocel.events.push(event), ..ocel })[i].attributes;
    let kept = if i < before.len() {
        before[i].attributes
    } else {
        Seq::empty()
    };
    let names = event.attributes.map_values(|one: EventAttributeModel| one.name);
    event_furthers_its_type(ocel, event, i);
    furthered_covers(kept, names, m);
    let a = choose|a: int|
        0 <= a < furthered(kept, names).len() && (#[trigger] furthered(kept, names)[a]).name == names[m];
    assert(now[a].name == event.attributes[m].name);
}

/// What the type of a further event gets comes from the event, in the order of first occurrence: of
/// two attributes that it gets, the first has an occurrence before all those of the second.
pub proof fn event_attributes_are_taken_in_order(
    ocel: OcelModel,
    event: EventModel,
    i: int,
    a: int,
    b: int,
)
    requires
        ({
            let after = event_types_of(OcelModel { events: ocel.events.push(event), ..ocel });
            0 <= i < after.len() && after[i].name == event.event_type
        }),
        ({
            let before = event_types_of(ocel);
            let now = event_types_of(OcelModel { events: ocel.events.push(event), ..ocel })[i].attributes;
            let kept = if i < before.len() {
                before[i].attributes
            } else {
                Seq::empty()
            };
            kept.len() <= a < b <= now.len()
        }),
    ensures
        ({
            let now = event_types_of(OcelModel { events: ocel.events.push(event), ..ocel })[i].attributes;
            exists|m: int|
                {
                    &&& 0 <= m < event.attributes.len()
                    &&& (#[trigger] event.attributes[m]).name == now[a].name
                    &&& b < now.len() ==> forall|n: int|
                        0 <= n <= m ==> (#[trigger] event.attributes[n]).name != now[b].name
                }
        }),
{
    let before = event_types_of(ocel);
    let now = event_types_of(OcelModel { events: ocel.events.push(event), ..ocel })[i].attributes;
    let kept = if i < before.len() {
        before[i].attributes
    } else {
        Seq::empty()
    };
    let names = event.attributes.map_values(|one: EventAttributeModel| one.name);
    event_furthers_its_type(ocel, event, i);
    furthered_in_order(kept, names, a, b);
    let m = choose|m: int|
        {
            &&& 0 <= m < names.len()
            &&& #[trigger] names[m] == furthered(kept, names)[a].name
            &&& forall|n: int|
                0 <= n <= m && b < furthered(kept, names).len() ==> #[trigger] names[n]
                    != furthered(kept, names)[b].name
        };
    assert(event.attributes[m].name == now[a].name);
    if b < now.len() {
        assert forall|n: int| 0 <= n <= m implies (#[trigger] event.attributes[n]).name
            != now[b].name by {
            assert(names[n] == event.attributes[n].name);
        }
    }
}

/// Every object of a log finds a type of just its name among the object types, with an attribute of
/// just the name of each of its own.
pub proof fn objects_find_their_types(ocel: Ocel, k: int, m: int)
    requires
        0 <= k < ocel.objects@.len(),
        0 <= m < ocel.objects@[k].attributes@.len(),
    ensures
        ({
            let found = object_types_of(ocel.deep_view());
            exists|i: int, a: int|
                {
                    &&& 0 <= i < found.len()
                    &&& found[i].name == ocel.objects@[k].object_type@
                    &&& 0 <= a < found[i].attributes.len()
                    &&& #[trigger] found[i].attributes[a].name
                        == ocel.objects@[k].attributes@[m].name@
                }
        }),
{
    let found = object_types_of(ocel.deep_view());
    let types = ocel.deep_view().object_types;
    let uses = ocel.deep_view().objects.map_values(|one: ObjectModel| object_use(one));
    uses_are_covered(types, uses, k);
    let i = type_position(found, uses[k].name);
    let name = uses[k].attributes[m];
    assert(has_attribute(found[i].attributes, name));
    let a = choose|a: int|
        0 <= a < found[i].attributes.len() && #[trigger] found[i].attributes[a].name == name;
    assert(found[i].attributes[a].name == ocel.objects@[k].attributes@[m].name@);
}

/// Every object of a log, with or without attributes, finds exactly one object type of its name.
pub proof fn objects_have_one_type(ocel: Ocel, k: int)
    requires
        0 <= k < ocel.objects@.len(),
    ensures
        ({
            let found = object_types_of(ocel.deep_view());
            &&& exists|i: int|
                0 <= i < found.len() && #[trigger] found[i].name == ocel.objects@[k].object_type@
            &&& forall|i: int, j: int|
                0 <= i < j < found.len() ==> #[trigger] found[i].name != #[trigger] found[j].name
        }),
{
    let found = object_types_of(ocel.deep_view());
    let types = ocel.deep_view().object_types;
    let uses = ocel.deep_view().objects.map_values(|one: ObjectModel| object_use(one));
    uses_are_covered(types, uses, k);
    completed_types_are_distinct(types, uses);
    let i = type_position(found, uses[k].name);
    assert(found[i].name == ocel.objects@[k].object_type@);
}

/// A object type is declared by the log or is the type of one of its objects.
pub proof fn object_types_come_from_the_log(ocel: Ocel, i: int)
    requires
        0 <= i < object_types_of(ocel.deep_view()).len(),
    ensures
        ({
            let name = object_types_of(ocel.deep_view())[i].name;
            ||| exists|k: int|
                0 <= k < ocel.object_types@.len() && (#[trigger] ocel.object_types@[k]).name@ == name
            ||| exists|k: int|
                0 <= k < ocel.objects@.len() && (#[trigger] ocel.objects@[k]).object_type@ == name
        }),
{
    let found = object_types_of(ocel.deep_view());
    let types = ocel.deep_view().object_types;
    let uses = ocel.deep_view().objects.map_values(|one: ObjectModel| object_use(one));
    types_come_in_order(types, uses);
    let names = completed_names(types, uses);
    let all = type_names(types) + used_names(uses);
    assert(names.contains(names[i]));
    new_names_contains(Seq::empty(), all, names[i]);
    let p = choose|p: int| 0 <= p < all.len() && all[p] == names[i];
    if p < types.len() {
        assert(ocel.object_types@[p].name@ == found[i].name);
    } else {
        assert(ocel.objects@[p - types.len()].object_type@ == found[i].name);
    }
}

/// The first declaration of an object type is kept with its attributes in their places.
pub proof fn object_declarations_are_kept(ocel: Ocel, k: int)
    requires
        0 <= k < ocel.object_types@.len(),
        forall|l: int|
            0 <= l < k ==> (#[trigger] ocel.object_types@[l]).name@ != ocel.object_types@[k].name@,
    ensures
        ({
            let found = object_types_of(ocel.deep_view());
            let declared = ocel.object_types@[k];
            exists|i: int|
                {
                    &&& 0 <= i < found.len()
                    &&& (#[trigger] found[i]).name == declared.name@
                    &&& declared.attributes@.len() <= found[i].attributes.len()
                    &&& forall|a: int|
                        0 <= a < declared.attributes@.len() ==> (#[trigger] found[i].attributes[a]).name
                            == declared.attributes@[a].name@ && found[i].attributes[a].value_type
                            == declared.attributes@[a].value_type@
                }
        }),
{
    let found = object_types_of(ocel.deep_view());
    let types = ocel.deep_view().object_types;
    let uses = ocel.deep_view().objects.map_values(|one: ObjectModel| object_use(one));
    let name = ocel.object_types@[k].name@;
    let names = completed_names(types, uses);
    let all = type_names(types) + used_names(uses);
    types_come_in_order(types, uses);
    assert(types[k].name == name);
    assert(all[k] == name);
    new_names_contains(Seq::empty(), all, name);
    let i = choose|i: int| 0 <= i < names.len() && names[i] == name;
    assert(found[i] == completed_type(types, uses, name));
    assert forall|l: int| 0 <= l < k implies #[trigger] types[l].name != name by {
        assert(ocel.object_types@[l].name@ != name);
    }
    type_position_is(types, name, k);
    assert(declared_attributes(types, name) == types[k].attributes);
    assert(found[i].name == name);
}

/// An attribute of an object type that is not one of its first declaration holds strings, has another
/// name than those before it, and is one that some object of the type has.
pub proof fn object_attributes_come_from_the_log(ocel: Ocel, i: int, a: int)
    requires
        0 <= i < object_types_of(ocel.deep_view()).len(),
        0 <= a < object_types_of(ocel.deep_view())[i].attributes.len(),
        forall|k: int|
            0 <= k < ocel.object_types@.len() && (#[trigger] ocel.object_types@[k]).name@ == object_types_of(
                ocel.deep_view(),
            )[i].name ==> a >= ocel.object_types@[k].attributes@.len(),
    ensures
        ({
            let definition = object_types_of(ocel.deep_view())[i];
            &&& definition.attributes[a].value_type == "string"@
            &&& forall|b: int|
                0 <= b < a ==> #[trigger] definition.attributes[b].name != definition.attributes[a].name
            &&& exists|k: int, m: int|
                {
                    &&& 0 <= k < ocel.objects@.len()
                    &&& ocel.objects@[k].object_type@ == definition.name
                    &&& 0 <= m < ocel.objects@[k].attributes@.len()
                    &&& (#[trigger] ocel.objects@[k].attributes@[m]).name@
                        == definition.attributes[a].name
                }
        }),
{
    let found = object_types_of(ocel.deep_view());
    let types = ocel.deep_view().object_types;
    let uses = ocel.deep_view().objects.map_values(|one: ObjectModel| object_use(one));
    types_come_in_order(types, uses);
    let name = found[i].name;
    let kept = declared_attributes(types, name);
    if has_type(types, name) {
        type_position_exists(types, name);
        let p = type_position(types, name);
        assert(ocel.object_types@[p].name@ == name);
        assert(kept.len() == ocel.object_types@[p].attributes@.len());
    }
    let brought = used_attributes(uses, name);
    let fresh = new_names(attribute_names(kept), brought);
    let new_name = fresh[a - kept.len()];
    assert(found[i] == completed_type(types, uses, name));
    assert(found[i].attributes[a].name == new_name);
    new_names_differ(attribute_names(kept), brought);
    assert(fresh.contains(new_name));
    new_names_contains(attribute_names(kept), brought, new_name);
    used_attributes_come_from_uses(uses, name, new_name);
    let (k, m) = choose|k: int, m: int|
        0 <= k < uses.len() && uses[k].name == name && 0 <= m < uses[k].attributes.len()
            && #[trigger] uses[k].attributes[m] == new_name;
    assert(ocel.objects@[k].attributes@[m].name@ == new_name);
    assert forall|b: int| 0 <= b < a implies #[trigger] found[i].attributes[b].name
        != found[i].attributes[a].name by {
        if b < kept.len() {
            assert(attribute_names(kept)[b] == found[i].attributes[b].name);
        } else {
            assert(found[i].attributes[b].name == fresh[b - kept.len()]);
        }
    }
}

/// What a further object does to the object types: its type keeps its place, or comes last where it is
/// new, and every other type stays as it is.
pub proof fn object_types_grow_with_the_log(ocel: OcelModel, object: ObjectModel)
    ensures
        ({
            let before = object_types_of(ocel);
            let after = object_types_of(OcelModel { objects: ocel.objects.push(object), ..ocel });
            let known = exists|i: int| 0 <= i < before.len() && #[trigger] before[i].name == object.object_type;
            &&& after.len() == if known {
                before.len()
            } else {
                before.len() + 1
            }
            &&& !known ==> after[before.len() as int].name == object.object_type
            &&& forall|i: int| 0 <= i < before.len() ==> (#[trigger] after[i]).name == before[i].name
            &&& forall|i: int|
                0 <= i < before.len() && before[i].name != object.object_type ==> #[trigger] after[i]
                    == before[i]
        }),
{
    let longer = OcelModel { objects: ocel.objects.push(object), ..ocel };
    let before = object_types_of(ocel);
    let after = object_types_of(longer);
    let uses = ocel.objects.map_values(|one: ObjectModel| object_use(one));
    let used = object_use(object);
    let all = longer.objects.map_values(|one: ObjectModel| object_use(one));
    assert(all.last() == used);
    assert(all.drop_last() == uses);
    completed_types_are_distinct(ocel.object_types, uses);
    after_use_directly(before, used);
    let ensured = with_type(before, used.name);
    let p = type_position(ensured, used.name);
    assert(used.name == object.object_type);
}

proof fn object_furthers_its_type(ocel: OcelModel, object: ObjectModel, i: int)
    requires
        ({
            let after = object_types_of(OcelModel { objects: ocel.objects.push(object), ..ocel });
            0 <= i < after.len() && after[i].name == object.object_type
        }),
    ensures
        ({
            let before = object_types_of(ocel);
            let now = object_types_of(OcelModel { objects: ocel.objects.push(object), ..ocel })[i].attributes;
            let kept = if i < before.len() {
                before[i].attributes
            } else {
                Seq::empty()
            };
            now == furthered(kept, object.attributes.map_values(|one: ObjectAttributeModel| one.name))
        }),
{
    let longer = OcelModel { objects: ocel.objects.push(object), ..ocel };
    let before = object_types_of(ocel);
    let after = object_types_of(longer);
    let uses = ocel.objects.map_values(|one: ObjectModel| object_use(one));
    let used = object_use(object);
    let all = longer.objects.map_values(|one: ObjectModel| object_use(one));
    assert(all.last() == used);
    assert(all.drop_last() == uses);
    completed_types_are_distinct(ocel.object_types, uses);
    after_use_directly(before, used);
    let ensured = with_type(before, used.name);
    let p = type_position(ensured, used.name);
    assert(i == p);
    assert(p < before.len() ==> ensured[p] == before[p]);
    assert(p >= before.len() ==> ensured[p].attributes == Seq::<AttributeDefinitionModel>::empty());
    assert(used.attributes == object.attributes.map_values(|one: ObjectAttributeModel| one.name));
}

/// The type of a further object keeps the attributes it has, and what comes behind them holds strings
/// and differs by name from all that comes before.
pub proof fn object_attributes_grow_with_the_log(ocel: OcelModel, object: ObjectModel, i: int)
    requires
        ({
            let after = object_types_of(OcelModel { objects: ocel.objects.push(object), ..ocel });
            0 <= i < after.len() && after[i].name == object.object_type
        }),
    ensures
        ({
            let before = object_types_of(ocel);
            let now = object_types_of(OcelModel { objects: ocel.objects.push(object), ..ocel })[i].attributes;
            let kept = if i < before.len() {
                before[i].attributes
            } else {
                Seq::empty()
            };
            &&& kept.len() <= now.len()
            &&& forall|a: int| 0 <= a < kept.len() ==> #[trigger] now[a] == kept[a]
            &&& forall|a: int| kept.len() <= a < now.len() ==> (#[trigger] now[a]).value_type == "string"@
            &&& forall|a: int, b: int|
                0 <= a < b < now.len() && kept.len() <= b ==> (#[trigger] now[a]).name
                    != (#[trigger] now[b]).name
        }),
{
    let before = object_types_of(ocel);
    let now = object_types_of(OcelModel { objects: ocel.objects.push(object), ..ocel })[i].attributes;
    let kept = if i < before.len() {
        before[i].attributes
    } else {
        Seq::empty()
    };
    let names = object.attributes.map_values(|one: ObjectAttributeModel| one.name);
    object_furthers_its_type(ocel, object, i);
    furthered_keeps(kept, names);
}

/// The type of a further object has an attribute of the name of each attribute of the object.
pub proof fn object_attributes_are_taken_up(ocel: OcelModel, object: ObjectModel, i: int, m: int)
    requires
        ({
            let after = object_types_of(OcelModel { objects: ocel.objects.push(object), ..ocel });
            0 <= i < after.len() && after[i].name == object.object_type
        }),
        0 <= m < object.attributes.len(),
    ensures
        ({
            let now = object_types_of(OcelModel { objects: ocel.objects.push(object), ..ocel })[i].attributes;
            exists|a: int|
                0 <= a < now.len() && (#[trigger] now[a]).name == object.attributes[m].name
        }),
{
    let before = object_types_of(ocel);
    let now = object_types_of(OcelModel { objects: ocel.objects.push(object), ..ocel })[i].attributes;
    let kept = if i < before.len() {
        before[i].attributes
    } else {
        Seq::empty()
    };
    let names = object.attributes.map_values(|one: ObjectAttributeModel| one.name);
    object_furthers_its_type(ocel, object, i);
    furthered_covers(kept, names, m);
    let a = choose|a: int|
        0 <= a < furthered(kept, names).len() && (#[trigger] furthered(kept, names)[a]).name == names[m];
    assert(now[a].name == object.attributes[m].name);
}

/// What the type of a further object gets comes from the object, in the order of first occurrence: of
/// two attributes that it gets, the first has an occurrence before all those of the second.
pub proof fn object_attributes_are_taken_in_order(
    ocel: OcelModel,
    object: ObjectModel,
    i: int,
    a: int,
    b: int,
)
    requires
        ({
            let after = object_types_of(OcelModel { objects: ocel.objects.push(object), ..ocel });
            0 <= i < after.len() && after[i].name == object.object_type
        }),
        ({
            let before = object_types_of(ocel);
            let now = object_types_of(OcelModel { objects: ocel.objects.push(object), ..ocel })[i].attributes;
            let kept = if i < before.len() {
                before[i].attributes
            } else {
                Seq::empty()
            };
            kept.len() <= a < b <= now.len()
        }),
    ensures
        ({
            let now = object_types_of(OcelModel { objects: ocel.objects.push(object), ..ocel })[i].attributes;
            exists|m: int|
                {
                    &&& 0 <= m < object.attributes.len()
                    &&& (#[trigger] object.attributes[m]).name == now[a].name
                    &&& b < now.len() ==> forall|n: int|
                        0 <= n <= m ==> (#[trigger] object.attributes[n]).name != now[b].name
                }
        }),
{
    let before = object_types_of(ocel);
    let now = object_types_of(OcelModel { objects: ocel.objects.push(object), ..ocel })[i].attributes;
    let kept = if i < before.len() {
        before[i].attributes
    } else {
        Seq::empty()
    };
    let names = object.attributes.map_values(|one: ObjectAttributeModel| one.name);
    object_furthers_its_type(ocel, object, i);
    furthered_in_order(kept, names, a, b);
    let m = choose|m: int|
        {
            &&& 0 <= m < names.len()
            &&& #[trigger] names[m] == furthered(kept, names)[a].name
            &&& forall|n: int|
                0 <= n <= m && b < furthered(kept, names).len() ==> #[trigger] names[n]
                    != furthered(kept, names)[b].name
        };
    assert(object.attributes[m].name == now[a].name);
    if b < now.len() {
        assert forall|n: int| 0 <= n <= m implies (#[trigger] object.attributes[n]).name
            != now[b].name by {
            assert(names[n] == object.attributes[n].name);
        }
    }
}

} // verus!

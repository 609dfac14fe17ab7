//! What the interactive prompts decide: which references are valid, what to
//! suggest while one is typed, and which id a new entity gets.

use vstd::prelude::*;
use vstd::string::StringExecFns;
use crate::datetime::{timestamp_of_local, DateTimeValue};
use crate::entity::Entity;
use crate::field::{FieldModel, FieldType, FieldValue, ReferenceModel, ReferenceValue};
use crate::scan::{flagged, lists_by_text, pick_flagged, sort_by_text, trim, trim_space};
use crate::schema::{EntitySchema, FieldMode};
use crate::graph::{positions_of_type, EntityGraph};
use crate::id::{compose_entity_id, compose_spec, to_snake_case, snake_case_of, EntityType, FieldId};
use crate::number::{nat_text, number_chars};
use crate::scan::{matches_at, occurs_at, split, split_text, views};
use crate::text::{from_chars, to_chars};

verus! {

/// What is added to the prompt for a field that may be skipped.
pub const SKIP_PROMPT_FRAGMENT: &'static str = " (esc to skip)";

/// How many ids are tried for a new entity.
pub const MAX_ID_ATTEMPTS: usize = 1000;

/// Whether `char::is_alphabetic` holds of a character.
pub uninterp spec fn is_letter(c: char) -> bool;

/// `char::is_alphabetic`.
#[verifier::external_body]
fn char_is_alphabetic(c: char) -> (r: bool)
    ensures
        r == is_letter(c),
{
    c.is_alphabetic()
}

/// The fragment for the prompt of a field: the hint for one that may be
/// skipped, nothing for one that may not.
pub fn get_skippable_prompt(skippable: bool) -> (r: &'static str)
    ensures
        r@ == (if skippable {
            SKIP_PROMPT_FRAGMENT@
        } else {
            ""@
        }),
{
    if skippable {
        SKIP_PROMPT_FRAGMENT
    } else {
        ""
    }
}

/// What checking a reference that was typed in finds.
#[derive(Debug, Clone, Copy, PartialEq, Eq, Structural)]
pub enum ReferenceCheck {
    /// The reference points at something in the graph.
    Valid,
    /// There is no entity with this id.
    NoEntity,
    /// The entity has no field with this id.
    NoField,
    /// The reference does not have two or three parts.
    BadFormat,
}

impl ReferenceCheck {
    /// What to tell the user.
    pub open spec fn message(self) -> Seq<char> {
        match self {
            ReferenceCheck::Valid => ""@,
            ReferenceCheck::NoEntity => "There is no entity matching this ID"@,
            ReferenceCheck::NoField => "There is no field matching this ID"@,
            ReferenceCheck::BadFormat => "References should have 2 or 3 parts separated by '.'"@,
        }
    }

    /// What to tell the user.
    pub fn to_string(&self) -> (r: String)
        ensures
            r@ == self.message(),
    {
        match self {
            ReferenceCheck::Valid => String::from_str(""),
            ReferenceCheck::NoEntity => String::from_str("There is no entity matching this ID"),
            ReferenceCheck::NoField => String::from_str("There is no field matching this ID"),
            ReferenceCheck::BadFormat => String::from_str(
                "References should have 2 or 3 parts separated by '.'",
            ),
        }
    }
}

/// What checking a reference finds: two parts must name an entity of the
/// graph, three an entity and one of its fields.
pub open spec fn reference_check(input: Seq<char>, graph: EntityGraph) -> ReferenceCheck {
    let parts = split_text(input, "."@);
    if parts.len() == 2 {
        if graph.contains_id(compose_spec(parts[0], parts[1])) {
            ReferenceCheck::Valid
        } else {
            ReferenceCheck::NoEntity
        }
    } else if parts.len() == 3 {
        let id = compose_spec(parts[0], parts[1]);
        if graph.contains_id(id) {
            if graph.entity(id).fields.has(parts[2]) {
                ReferenceCheck::Valid
            } else {
                ReferenceCheck::NoField
            }
        } else {
            ReferenceCheck::NoEntity
        }
    } else {
        ReferenceCheck::BadFormat
    }
}

/// Checks a reference that was typed in against the graph.
pub fn parse_reference(input: &str, graph: &EntityGraph) -> (r: ReferenceCheck)
    ensures
        r == reference_check(input@, *graph),
{
    let chars = to_chars(input);
    let dot = to_chars(".");
    proof {
        reveal_strlit(".");
    }
    let parts = split(&chars, &dot);
    let ghost texts = split_text(input@, "."@);
    assert(forall|i: int| 0 <= i < parts@.len() ==> (#[trigger] parts@[i])@ == texts[i]) by {
        assert(views(parts@) == texts);
        assert forall|i: int| 0 <= i < parts@.len() implies (#[trigger] parts@[i])@ == texts[i] by {
            assert(views(parts@)[i] == parts@[i]@);
        }
    }
    if parts.len() == 2 {
        let composite_id = compose_entity_id(
            from_chars(&parts[0]).as_str(),
            from_chars(&parts[1]).as_str(),
        );
        match graph.get_entity(&composite_id) {
            Some(_) => ReferenceCheck::Valid,
            None => ReferenceCheck::NoEntity,
        }
    } else if parts.len() == 3 {
        let composite_id = compose_entity_id(
            from_chars(&parts[0]).as_str(),
            from_chars(&parts[1]).as_str(),
        );
        match graph.get_entity(&composite_id) {
            Some(entity) => {
                let field_id = FieldId(from_chars(&parts[2]));
                match entity.get_field(&field_id) {
                    Some(_) => ReferenceCheck::Valid,
                    None => ReferenceCheck::NoField,
                }
            },
            None => ReferenceCheck::NoEntity,
        }
    } else {
        ReferenceCheck::BadFormat
    }
}

/// Those of the first `upto` types that start with `partial`, each followed
/// by a dot.
pub open spec fn type_suggestions(types: Seq<Seq<char>>, partial: Seq<char>, upto: nat) -> Seq<
    Seq<char>,
>
    decreases upto,
{
    if 0 < upto <= types.len() {
        let before = type_suggestions(types, partial, (upto - 1) as nat);
        if occurs_at(types[upto - 1], partial, 0) {
            before.push(types[upto - 1] + "."@)
        } else {
            before
        }
    } else {
        Seq::empty()
    }
}

/// The ids of those of the first `upto` entities at `positions` that start
/// with `partial`.
pub open spec fn id_suggestions(
    nodes: Seq<Entity>,
    positions: Seq<int>,
    partial: Seq<char>,
    upto: nat,
) -> Seq<Seq<char>>
    decreases upto,
{
    if 0 < upto <= positions.len() {
        let before = id_suggestions(nodes, positions, partial, (upto - 1) as nat);
        let id = nodes[positions[upto - 1]].id@;
        if occurs_at(id, partial, 0) {
            before.push(id)
        } else {
            before
        }
    } else {
        Seq::empty()
    }
}

/// References to those of the first `upto` fields of an entity whose ids
/// start with `partial`.
pub open spec fn field_suggestions(entity: Entity, partial: Seq<char>, upto: nat) -> Seq<Seq<char>>
    decreases upto,
{
    if 0 < upto <= entity.fields.entries().len() {
        let before = field_suggestions(entity, partial, (upto - 1) as nat);
        let field_id = entity.fields.entries()[upto - 1].0@;
        if occurs_at(field_id, partial, 0) {
            before.push(entity.id@ + "."@ + field_id)
        } else {
            before
        }
    } else {
        Seq::empty()
    }
}

/// What to suggest for a reference that is being typed: entity types while
/// the first part is typed, entity ids of the type while the second is,
/// fields of the entity while the third is; nothing after that.
pub open spec fn suggestions(input: Seq<char>, graph: EntityGraph) -> Seq<Seq<char>> {
    let parts = split_text(input, "."@);
    if parts.len() == 1 {
        type_suggestions(graph.types(), parts[0], graph.types().len())
    } else if parts.len() == 2 {
        let positions = positions_of_type(graph.nodes(), parts[0]);
        id_suggestions(graph.nodes(), positions, compose_spec(parts[0], parts[1]), positions.len())
    } else if parts.len() == 3 {
        let id = compose_spec(parts[0], parts[1]);
        if graph.contains_id(id) {
            field_suggestions(graph.entity(id), parts[2], graph.entity(id).fields.entries().len())
        } else {
            Seq::empty()
        }
    } else {
        Seq::empty()
    }
}

/// The texts of a vector of strings.
pub open spec fn texts_of(strings: Seq<String>) -> Seq<Seq<char>> {
    Seq::new(strings.len(), |i: int| strings[i]@)
}

/// Tests whether a text starts with another.
fn begins_with(text: &str, start: &Vec<char>) -> (r: bool)
    ensures
        r == occurs_at(text@, start@, 0),
{
    let chars = to_chars(text);
    matches_at(&chars, start, 0)
}

/// Gets suggestions for a reference that is being typed.
pub fn get_reference_suggestions(input: &str, graph: &EntityGraph) -> (r: Vec<String>)
    ensures
        texts_of(r@) == suggestions(input@, *graph),
{
    let chars = to_chars(input);
    let dot = to_chars(".");
    proof {
        reveal_strlit(".");
    }
    let parts = split(&chars, &dot);
    let ghost texts = split_text(input@, "."@);
    assert(forall|i: int| 0 <= i < parts@.len() ==> (#[trigger] parts@[i])@ == texts[i]) by {
        assert(views(parts@) == texts);
        assert forall|i: int| 0 <= i < parts@.len() implies (#[trigger] parts@[i])@ == texts[i] by {
            assert(views(parts@)[i] == parts@[i]@);
        }
    }
    let mut found: Vec<String> = Vec::new();
    proof {
        assert(texts_of(found@) =~= Seq::<Seq<char>>::empty());
    }
    if parts.len() == 1 {
        let partial_type = &parts[0];
        let types = graph.get_all_entity_types();
        let ghost names = graph.types();
        let mut i: usize = 0;
        while i < types.len()
            invariant
                i <= types.len(),
                names == graph.types(),
                Seq::new(types@.len(), |k: int| types@[k]@) == names,
                texts_of(found@) == type_suggestions(names, partial_type@, i as nat),
            decreases types.len() - i,
        {
            let ghost before = texts_of(found@);
            assert(names[i as int] == types@[i as int]@);
            if begins_with(types[i].as_str(), partial_type) {
                let mut suggestion = types[i].to_string();
                suggestion.append(".");
                found.push(suggestion);
                assert(texts_of(found@) =~= before.push(names[i as int] + "."@));
            }
            i += 1;
        }
    } else if parts.len() == 2 {
        let entity_type = from_chars(&parts[0]);
        let entity_id = from_chars(&parts[1]);
        let composite_id = compose_entity_id(entity_type.as_str(), entity_id.as_str());
        let start = to_chars(composite_id.as_str());
        let entities = graph.list_by_type(&EntityType(entity_type));
        let ghost positions = positions_of_type(graph.nodes(), parts@[0]@);
        let mut i: usize = 0;
        while i < entities.len()
            invariant
                i <= entities.len(),
                entities@.len() == positions.len(),
                forall|j: int|
                    0 <= j < entities@.len() ==> *(#[trigger] entities@[j])
                        == graph.nodes()[positions[j]],
                texts_of(found@) == id_suggestions(graph.nodes(), positions, start@, i as nat),
            decreases entities.len() - i,
        {
            let ghost before = texts_of(found@);
            let entity = entities[i];
            if begins_with(entity.id.as_str(), &start) {
                found.push(entity.id.to_string());
                assert(texts_of(found@) =~= before.push(entity.id@));
            }
            i += 1;
        }
    } else if parts.len() == 3 {
        let composite_id = compose_entity_id(
            from_chars(&parts[0]).as_str(),
            from_chars(&parts[1]).as_str(),
        );
        let partial_field = &parts[2];
        match graph.get_entity(&composite_id) {
            Some(entity) => {
                let count = entity.fields.len();
                let mut i: usize = 0;
                while i < count
                    invariant
                        i <= count,
                        count == entity.fields.entries().len(),
                        texts_of(found@) == field_suggestions(*entity, partial_field@, i as nat),
                    decreases count - i,
                {
                    let ghost before = texts_of(found@);
                    let field_id = entity.fields.key_at(i);
                    if begins_with(field_id.as_str(), partial_field) {
                        let mut suggestion = entity.id.to_string();
                        suggestion.append(".");
                        suggestion.append(field_id.as_str());
                        found.push(suggestion);
                        assert(texts_of(found@) =~= before.push(
                            entity.id@ + "."@ + field_id@,
                        ));
                    }
                    i += 1;
                }
            },
            None => {},
        }
    }
    found
}

/// Whether an answer holds nothing but whitespace.
pub fn is_blank_answer(answer: &str) -> (r: bool)
    ensures
        r == (trim_space(answer@).len() == 0),
{
    let chars = to_chars(answer);
    trim(&chars).len() == 0
}

/// The reference that an answer denotes: two parts between dots refer to an
/// entity, three to a field. The first two parts make the composite id.
pub open spec fn reference_of_answer(answer: Seq<char>) -> Option<FieldModel> {
    let parts = split_text(answer, "."@);
    if parts.len() == 2 {
        Some(FieldModel::Reference(ReferenceModel::Entity(compose_spec(parts[0], parts[1]))))
    } else if parts.len() == 3 {
        Some(
            FieldModel::Reference(
                ReferenceModel::Field(compose_spec(parts[0], parts[1]), parts[2]),
            ),
        )
    } else {
        None
    }
}

/// Makes the reference that an answer denotes.
pub fn reference_from_answer(answer: &str) -> (r: Option<FieldValue>)
    ensures
        match reference_of_answer(answer@) {
            Some(value) => r is Some && r->0@ == value,
            None => r is None,
        },
{
    let chars = to_chars(answer);
    let dot = to_chars(".");
    proof {
        reveal_strlit(".");
    }
    let parts = split(&chars, &dot);
    let ghost texts = split_text(answer@, "."@);
    assert(forall|i: int| 0 <= i < parts@.len() ==> (#[trigger] parts@[i])@ == texts[i]) by {
        assert(views(parts@) == texts);
        assert forall|i: int| 0 <= i < parts@.len() implies (#[trigger] parts@[i])@ == texts[i] by {
            assert(views(parts@)[i] == parts@[i]@);
        }
    }
    if parts.len() == 2 {
        Some(
            FieldValue::Reference(
                ReferenceValue::Entity(
                    compose_entity_id(
                        from_chars(&parts[0]).as_str(),
                        from_chars(&parts[1]).as_str(),
                    ),
                ),
            ),
        )
    } else if parts.len() == 3 {
        Some(
            FieldValue::Reference(
                ReferenceValue::Field(
                    compose_entity_id(
                        from_chars(&parts[0]).as_str(),
                        from_chars(&parts[1]).as_str(),
                    ),
                    FieldId(from_chars(&parts[2])),
                ),
            ),
        )
    } else {
        None
    }
}

/// The least offset from UTC that a prompt accepts, in hours.
pub const MIN_OFFSET_HOURS: i32 = -12;

/// The greatest offset from UTC that a prompt accepts, in hours.
pub const MAX_OFFSET_HOURS: i32 = 14;

/// The whole hours of an offset in seconds, rounded towards zero.
pub fn offset_hours(offset_seconds: i32) -> (r: i32)
    ensures
        r == crate::generate::from_value::offset_hours(offset_seconds as int),
{
    if offset_seconds >= 0 {
        offset_seconds / 3600
    } else {
        let magnitude: i64 = -(offset_seconds as i64);
        (-(magnitude / 3600)) as i32
    }
}

/// Makes a point in time of the answers of a prompt: a date, a time of day
/// and an offset from UTC in whole hours, which must lie between -12 and 14.
pub fn moment_from_answers(
    year: i32,
    month: u32,
    day: u32,
    hour: u32,
    minute: u32,
    offset_hours: i32,
) -> (r: Option<DateTimeValue>)
    ensures
        r is Some <==> MIN_OFFSET_HOURS <= offset_hours <= MAX_OFFSET_HOURS && timestamp_of_local(
            year,
            month,
            day,
            hour,
            minute,
            0,
            (offset_hours * 3600) as i32,
        ) is Some,
        r is Some ==> r->0.offset_seconds == offset_hours * 3600 && Some(r->0.timestamp)
            == timestamp_of_local(year, month, day, hour, minute, 0, (offset_hours * 3600) as i32),
{
    if offset_hours < MIN_OFFSET_HOURS || offset_hours > MAX_OFFSET_HOURS {
        return None;
    }
    DateTimeValue::from_local(year, month, day, hour, minute, 0, offset_hours * 3600)
}

/// The types that the items of a list can be prompted for.
pub fn list_item_types() -> (r: Vec<FieldType>)
    ensures
        r@ == seq![
            FieldType::String,
            FieldType::Integer,
            FieldType::Float,
            FieldType::Boolean,
            FieldType::DateTime,
            FieldType::Currency,
        ],
{
    vec![
        FieldType::String,
        FieldType::Integer,
        FieldType::Float,
        FieldType::Boolean,
        FieldType::DateTime,
        FieldType::Currency,
    ]
}

/// The ids of the fields of a schema.
pub open spec fn field_ids(schema: EntitySchema) -> Seq<Seq<char>> {
    Seq::new(schema.fields.entries().len(), |i: int| schema.fields.entries()[i].0@)
}

/// Whether each field of a schema is required.
pub open spec fn required_flags(schema: EntitySchema) -> Seq<bool> {
    Seq::new(
        schema.fields.entries().len(),
        |i: int| schema.fields.entries()[i].1.field_mode == FieldMode::Required,
    )
}

/// The positions of the required or of the optional fields of a schema, in
/// the order in which they are prompted for: ascending by id.
pub fn fields_in_prompt_order(schema: &EntitySchema, required: bool) -> (r: Vec<usize>)
    ensures
        exists|listing: Seq<usize>|
            lists_by_text(field_ids(*schema), listing) && r@ == flagged(
                listing,
                required_flags(*schema),
                required,
                listing.len(),
            ),
{
    let count = schema.fields.len();
    let mut keys: Vec<Vec<char>> = Vec::new();
    let mut flags: Vec<bool> = Vec::new();
    let mut i: usize = 0;
    while i < count
        invariant
            i <= count,
            count == schema.fields.entries().len(),
            keys@.len() == i,
            flags@.len() == i,
            forall|j: int| 0 <= j < i ==> (#[trigger] keys@[j])@ == field_ids(*schema)[j],
            forall|j: int| 0 <= j < i ==> #[trigger] flags@[j] == required_flags(*schema)[j],
        decreases count - i,
    {
        keys.push(to_chars(schema.fields.key_at(i).as_str()));
        flags.push(schema.fields.value_at(i).is_required());
        i += 1;
    }
    proof {
        assert(views(keys@) =~= field_ids(*schema));
        assert(flags@ =~= required_flags(*schema));
    }
    let listing = sort_by_text(&keys);
    pick_flagged(&listing, &flags, required)
}

/// The positions of schemas in the order in which they are offered:
/// ascending by entity type.
pub fn schemas_in_prompt_order(schemas: &Vec<EntitySchema>) -> (r: Vec<usize>)
    ensures
        lists_by_text(Seq::new(schemas@.len(), |i: int| schemas@[i].entity_type@), r@),
{
    let mut keys: Vec<Vec<char>> = Vec::new();
    let mut i: usize = 0;
    while i < schemas.len()
        invariant
            i <= schemas.len(),
            keys@.len() == i,
            forall|j: int| 0 <= j < i ==> (#[trigger] keys@[j])@ == schemas@[j].entity_type@,
        decreases schemas.len() - i,
    {
        keys.push(to_chars(schemas[i].entity_type.as_str()));
        i += 1;
    }
    proof {
        assert(views(keys@) =~= Seq::new(schemas@.len(), |i: int| schemas@[i].entity_type@));
    }
    sort_by_text(&keys)
}

/// The letters and spaces among the first `upto` characters of a text.
pub open spec fn letters_of(s: Seq<char>, upto: nat) -> Seq<char>
    decreases upto,
{
    if 0 < upto <= s.len() {
        let before = letters_of(s, (upto - 1) as nat);
        if s[upto - 1] == ' ' || is_letter(s[upto - 1]) {
            before.push(s[upto - 1])
        } else {
            before
        }
    } else {
        Seq::empty()
    }
}

/// The id that is tried at an attempt: the id itself at first, then the id
/// with the number of the attempt after an underscore.
pub open spec fn candidate(base: Seq<char>, attempt: nat) -> Seq<char> {
    if attempt == 0 {
        base
    } else {
        base + "_"@ + nat_text(attempt)
    }
}

/// The first id from the given attempt on that no entity of the type has,
/// or the last one tried.
pub open spec fn free_id(graph: EntityGraph, entity_type: Seq<char>, base: Seq<char>, attempt: nat) -> Seq<
    char,
>
    decreases MAX_ID_ATTEMPTS - attempt,
{
    if attempt + 1 < MAX_ID_ATTEMPTS && graph.contains_id(
        compose_spec(entity_type, candidate(base, attempt)),
    ) {
        free_id(graph, entity_type, base, attempt + 1)
    } else {
        candidate(base, attempt)
    }
}

/// Makes a local id for a new entity of a name that was typed in: only the
/// letters and spaces count, they are brought into snake case, and a number
/// is added where an entity of the type has the id already.
pub fn compute_unique_entity_id(graph: &EntityGraph, chosen_type_str: &str, chosen_id: String) -> (r:
    String)
    ensures
        r@ == free_id(
            *graph,
            chosen_type_str@,
            snake_case_of(letters_of(chosen_id@, chosen_id@.len())),
            0,
        ),
{
    let chars = to_chars(chosen_id.as_str());
    let mut kept: Vec<char> = Vec::new();
    let mut i: usize = 0;
    while i < chars.len()
        invariant
            i <= chars.len(),
            kept@ == letters_of(chars@, i as nat),
        decreases chars.len() - i,
    {
        let c = chars[i];
        if c == ' ' || char_is_alphabetic(c) {
            kept.push(c);
        }
        i += 1;
    }
    let base = to_snake_case(from_chars(&kept).as_str());
    let mut entity_id = base.clone();
    let mut id_counter: usize = 1;
    while id_counter < MAX_ID_ATTEMPTS && graph.contains_entity(
        &compose_entity_id(chosen_type_str, entity_id.as_str()),
    )
        invariant
            1 <= id_counter <= MAX_ID_ATTEMPTS,
            entity_id@ == candidate(base@, (id_counter - 1) as nat),
            free_id(*graph, chosen_type_str@, base@, 0) == free_id(
                *graph,
                chosen_type_str@,
                base@,
                (id_counter - 1) as nat,
            ),
        decreases MAX_ID_ATTEMPTS - id_counter,
    {
        let mut next = base.clone();
        next.append("_");
        next.append(from_chars(&number_chars(id_counter)).as_str());
        entity_id = next;
        id_counter += 1;
    }
    entity_id
}

} // verus!

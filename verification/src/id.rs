//! Typed identifiers.
//!
//! An identifier is a string in a normal form (lower snake case, with any `.`
//! kept where it stands). The three identifier types keep entity ids, field
//! ids and entity types from being mixed up.

use vstd::prelude::*;
use vstd::string::StringExecFns;
use vstd::string::StrSliceExecFns;
use crate::number::is_digit;
use crate::text::{find_char, index_of, lemma_index_of, lemma_index_of_is, to_chars};

verus! {

/// The snake-case form that `convert_case` gives a text.
pub uninterp spec fn snake_case_of(text: Seq<char>) -> Seq<char>;

/// The lowercase form that `str::to_lowercase` gives a text.
pub uninterp spec fn lowercase_of(text: Seq<char>) -> Seq<char>;

/// Whether a character is an ASCII lowercase letter.
pub open spec fn is_lower_letter(c: char) -> bool {
    'a' <= c <= 'z'
}

/// Whether a text holds nothing but ASCII lowercase letters, ASCII digits,
/// underscores and dots: the characters that have no other lowercase form.
pub open spec fn is_plain(text: Seq<char>) -> bool {
    forall|i: int|
        0 <= i < text.len() ==> {
            let c = #[trigger] text[i];
            is_lower_letter(c) || is_digit(c) || c == '_' || c == '.'
        }
}

/// Whether a letter and a digit stand side by side, in either order: the one
/// place inside a plain text where snake case would set a new underscore.
pub open spec fn parts_words(first: char, second: char) -> bool {
    (is_lower_letter(first) && is_digit(second)) || (is_digit(first) && is_lower_letter(second))
}

/// Whether a text is in normal form already: it is plain, and no letter
/// stands next to a digit.
pub open spec fn is_settled(text: Seq<char>) -> bool {
    &&& is_plain(text)
    &&& forall|i: int| 0 <= i < text.len() - 1 ==> !parts_words(#[trigger] text[i], text[i + 1])
}

/// `convert_case::Casing::to_case` with `Case::Snake`: the words of `text`, in
/// lowercase, joined by underscores. The result depends on the text alone.
/// A settled text comes back as it is: of the default word boundaries only
/// the underscore is found in it, each word between two underscores is
/// lowercase already, and the words are joined by underscores again.
#[verifier::external_body]
pub(crate) fn to_snake_case(text: &str) -> (r: String)
    ensures
        r@ == snake_case_of(text@),
        is_settled(text@) ==> r@ == text@,
{
    convert_case::Casing::to_case(&text, convert_case::Case::Snake)
}

/// `str::to_lowercase`: the Unicode lowercase equivalent of `text`. A plain
/// text comes back as it is: none of its characters has another lowercase
/// form.
#[verifier::external_body]
pub(crate) fn to_lowercase(text: &str) -> (r: String)
    ensures
        r@ == lowercase_of(text@),
        is_plain(text@) ==> r@ == text@,
{
    text.to_lowercase()
}

/// The id of an entity, unique in a graph.
#[derive(Debug, PartialEq, Eq, Hash, PartialOrd, Ord)]
pub struct EntityId(pub String);

/// The id of a field, unique in its entity or schema.
#[derive(Debug, PartialEq, Eq, Hash, PartialOrd, Ord)]
pub struct FieldId(pub String);

/// The name of a kind of entity.
#[derive(Debug, PartialEq, Eq, Hash, PartialOrd, Ord)]
pub struct EntityType(pub String);

impl View for EntityId {
    type V = Seq<char>;

    open spec fn view(&self) -> Seq<char> {
        self.0@
    }
}

impl View for FieldId {
    type V = Seq<char>;

    open spec fn view(&self) -> Seq<char> {
        self.0@
    }
}

impl View for EntityType {
    type V = Seq<char>;

    open spec fn view(&self) -> Seq<char> {
        self.0@
    }
}

impl Clone for EntityId {
    fn clone(&self) -> (r: Self)
        ensures
            r == *self,
    {
        EntityId(self.0.clone())
    }
}

impl Clone for FieldId {
    fn clone(&self) -> (r: Self)
        ensures
            r == *self,
    {
        FieldId(self.0.clone())
    }
}

impl Clone for EntityType {
    fn clone(&self) -> (r: Self)
        ensures
            r == *self,
    {
        EntityType(self.0.clone())
    }
}

impl EntityId {
    /// Makes an id from any text, bringing it into normal form.
    pub fn new(id: &str) -> (r: Self)
        ensures
            r@ == snake_case_of(id@),
            is_settled(id@) ==> r@ == id@,
    {
        EntityId(to_snake_case(id))
    }

    /// The id as text.
    pub fn as_str(&self) -> (r: &str)
        ensures
            r@ == self@,
    {
        self.0.as_str()
    }

    /// The id as an owned string.
    pub fn to_string(&self) -> (r: String)
        ensures
            r@ == self@,
    {
        self.0.clone()
    }

    /// Whether two ids are the same text.
    pub fn same_as(&self, other: &EntityId) -> (r: bool)
        ensures
            r == (self@ == other@),
    {
        self.0 == other.0
    }
}

impl FieldId {
    /// Makes an id from any text, bringing it into normal form.
    pub fn new(id: &str) -> (r: Self)
        ensures
            r@ == snake_case_of(id@),
            is_settled(id@) ==> r@ == id@,
    {
        FieldId(to_snake_case(id))
    }

    /// The id as text.
    pub fn as_str(&self) -> (r: &str)
        ensures
            r@ == self@,
    {
        self.0.as_str()
    }

    /// The id as an owned string.
    pub fn to_string(&self) -> (r: String)
        ensures
            r@ == self@,
    {
        self.0.clone()
    }

    /// Whether two ids are the same text.
    pub fn same_as(&self, other: &FieldId) -> (r: bool)
        ensures
            r == (self@ == other@),
    {
        self.0 == other.0
    }
}

impl EntityType {
    /// Makes a type name from any text, bringing it into normal form.
    pub fn new(id: &str) -> (r: Self)
        ensures
            r@ == snake_case_of(id@),
            is_settled(id@) ==> r@ == id@,
    {
        EntityType(to_snake_case(id))
    }

    /// The type name as text.
    pub fn as_str(&self) -> (r: &str)
        ensures
            r@ == self@,
    {
        self.0.as_str()
    }

    /// The type name as an owned string.
    pub fn to_string(&self) -> (r: String)
        ensures
            r@ == self@,
    {
        self.0.clone()
    }

    /// Whether two type names are the same text.
    pub fn same_as(&self, other: &EntityType) -> (r: bool)
        ensures
            r == (self@ == other@),
    {
        self.0 == other.0
    }
}

impl From<String> for EntityId {
    fn from(value: String) -> (r: Self) {
        EntityId(value)
    }
}

impl vstd::std_specs::convert::FromSpecImpl<String> for EntityId {
    open spec fn obeys_from_spec() -> bool {
        true
    }

    open spec fn from_spec(value: String) -> Self {
        EntityId(value)
    }
}

impl EntityId {
    /// Takes a text as it is, without bringing it into normal form.
    pub fn from_str(value: &str) -> (r: Self)
        ensures
            r@ == value@,
    {
        EntityId(value.to_owned())
    }
}

impl From<String> for FieldId {
    fn from(value: String) -> (r: Self) {
        FieldId(value)
    }
}

impl vstd::std_specs::convert::FromSpecImpl<String> for FieldId {
    open spec fn obeys_from_spec() -> bool {
        true
    }

    open spec fn from_spec(value: String) -> Self {
        FieldId(value)
    }
}

impl FieldId {
    /// Takes a text as it is, without bringing it into normal form.
    pub fn from_str(value: &str) -> (r: Self)
        ensures
            r@ == value@,
    {
        FieldId(value.to_owned())
    }
}

impl From<String> for EntityType {
    fn from(value: String) -> (r: Self) {
        EntityType(value)
    }
}

impl vstd::std_specs::convert::FromSpecImpl<String> for EntityType {
    open spec fn obeys_from_spec() -> bool {
        true
    }

    open spec fn from_spec(value: String) -> Self {
        EntityType(value)
    }
}

impl EntityType {
    /// Takes a text as it is, without bringing it into normal form.
    pub fn from_str(value: &str) -> (r: Self)
        ensures
            r@ == value@,
    {
        EntityType(value.to_owned())
    }
}

/// The text of a composite id before it is brought into normal form: the
/// lowercase type, a dot, the local id.
pub open spec fn composite_text(entity_type: Seq<char>, local_id: Seq<char>) -> Seq<char> {
    lowercase_of(entity_type) + seq!['.'] + local_id
}

/// The composite id of a type and a local id.
pub open spec fn compose_spec(entity_type: Seq<char>, local_id: Seq<char>) -> Seq<char> {
    snake_case_of(composite_text(entity_type, local_id))
}

/// The type and the local id that a composite id falls into: the text before
/// and after its first dot, or `unknown` and the whole text where it has none.
pub open spec fn decompose_spec(composite: Seq<char>) -> (Seq<char>, Seq<char>) {
    let dot = index_of(composite, '.');
    if dot < composite.len() {
        (composite.subrange(0, dot), composite.subrange(dot + 1, composite.len() as int))
    } else {
        ("unknown"@, composite)
    }
}

/// A type, a dot and a local id in one text.
pub open spec fn joined_by_dot(entity_type: Seq<char>, local_id: Seq<char>) -> Seq<char> {
    entity_type + seq!['.'] + local_id
}

/// Makes the composite id under which an entity of the given type and local
/// id is kept, so that entities of different types may share a local id.
///
/// A settled type and a settled local id are joined as they are, and
/// decomposing the composite id then gives both back if and only if the type
/// holds no dot.
pub fn compose_entity_id(entity_type: &str, entity_id: &str) -> (r: EntityId)
    ensures
        r@ == compose_spec(entity_type@, entity_id@),
        is_settled(entity_type@) && is_settled(entity_id@) ==> r@ == joined_by_dot(
            entity_type@,
            entity_id@,
        ),
        is_settled(entity_type@) && is_settled(entity_id@) ==> (decompose_spec(r@) == (
            entity_type@,
            entity_id@,
        ) <==> !entity_type@.contains('.')),
{
    let mut text = to_lowercase(entity_type);
    text.append(".");
    proof {
        reveal_strlit(".");
        assert("."@ =~= seq!['.']);
    }
    text.append(entity_id);
    proof {
        if is_settled(entity_type@) && is_settled(entity_id@) {
            lemma_joined_is_settled(entity_type@, entity_id@);
        }
        lemma_decompose_of_joined(entity_type@, entity_id@);
    }
    EntityId::new(text.as_str())
}

/// Two settled texts with a dot between them are one settled text.
pub proof fn lemma_joined_is_settled(entity_type: Seq<char>, local_id: Seq<char>)
    requires
        is_settled(entity_type),
        is_settled(local_id),
    ensures
        is_settled(joined_by_dot(entity_type, local_id)),
{
    let text = joined_by_dot(entity_type, local_id);
    let n = entity_type.len() as int;
    assert forall|i: int| 0 <= i < text.len() implies {
        let c = #[trigger] text[i];
        is_lower_letter(c) || is_digit(c) || c == '_' || c == '.'
    } by {
        if i < n {
            assert(text[i] == entity_type[i]);
        } else if i > n {
            assert(text[i] == local_id[i - n - 1]);
        }
    }
    assert forall|i: int| 0 <= i < text.len() - 1 implies !parts_words(
        #[trigger] text[i],
        text[i + 1],
    ) by {
        if i + 1 < n {
            assert(text[i] == entity_type[i]);
            assert(text[i + 1] == entity_type[i + 1]);
        } else if i > n {
            assert(text[i] == local_id[i - n - 1]);
            assert(text[i + 1] == local_id[i - n]);
        } else if i == n {
            assert(text[i] == '.');
        } else {
            assert(text[i + 1] == '.');
        }
    }
}

/// A type and a local id joined by a dot fall into the same two parts again
/// if and only if the type holds no dot: the text is split at its first dot.
pub proof fn lemma_decompose_of_joined(entity_type: Seq<char>, local_id: Seq<char>)
    ensures
        decompose_spec(joined_by_dot(entity_type, local_id)) == (entity_type, local_id)
            <==> !entity_type.contains('.'),
{
    let text = joined_by_dot(entity_type, local_id);
    assert(text[entity_type.len() as int] == '.');
    lemma_index_of(text, '.');
    let dot = index_of(text, '.');
    if entity_type.contains('.') {
        let k = choose|k: int| 0 <= k < entity_type.len() && entity_type[k] == '.';
        assert(text[k] == '.');
        assert(dot <= k);
        assert(text.subrange(0, dot).len() != entity_type.len());
    } else {
        assert forall|i: int| 0 <= i < entity_type.len() implies text[i] != '.' by {
            assert(text[i] == entity_type[i]);
            assert(entity_type.contains(entity_type[i]));
        }
        lemma_index_of_is(text, '.', entity_type.len() as int);
        assert(text.subrange(0, dot) =~= entity_type);
        assert(text.subrange(dot + 1, text.len() as int) =~= local_id);
    }
}

/// Splits a composite id at its first dot into type and local id. A text
/// without a dot gives the type `unknown`.
pub fn decompose_entity_id<'a>(composite_id: &'a str) -> (r: (&'a str, &'a str))
    ensures
        (r.0@, r.1@) == decompose_spec(composite_id@),
{
    let chars = to_chars(composite_id);
    let dot = find_char(&chars, 0, '.');
    proof {
        assert(chars@.subrange(0, chars@.len() as int) =~= chars@);
    }
    if dot < chars.len() {
        (composite_id.substring_char(0, dot), composite_id.substring_char(dot + 1, chars.len()))
    } else {
        ("unknown", composite_id)
    }
}

/// A type and a local id joined by a dot fall into the same two parts again
/// exactly when the local id holds no dot. This is stated of a type and a
/// local id of which either both hold a dot or neither does: a dot in the
/// type alone is taken for the end of the type, and a dot in the local id
/// alone does no harm.
pub proof fn lemma_round_trip_of_composite_id(entity_type: Seq<char>, local_id: Seq<char>)
    requires
        local_id.contains('.') <==> entity_type.contains('.'),
    ensures
        decompose_spec(joined_by_dot(entity_type, local_id)) == (entity_type, local_id)
            <==> !local_id.contains('.'),
{
    lemma_decompose_of_joined(entity_type, local_id);
}

} // verus!

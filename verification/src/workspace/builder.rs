//! Building a workspace: the schemas of all files are gathered, then the
//! entities of all files are converted and validated against them.

use vstd::prelude::*;
use vstd::string::StringExecFns;
use crate::convert::conversion_errors::{schema_error_message};
use crate::convert::to_entity::entity_of;
use crate::convert::to_schema::schema_of;
use crate::datetime::{is_offset, local_offset_now};
use crate::entity::{Entity, EntityModel};
use crate::id::{snake_case_of, EntityType};
use crate::parser::parsed_source::{blocks_of, ParsedSource, ENTITY_BLOCK_KIND, SCHEMA_BLOCK_KIND};
use crate::parser::tree::SyntaxNode;
use crate::scan::{join, join_text, views};
use crate::schema::builtin::{builtin_fields, builtin_name, builtin_rows, BUILTIN_COUNT};
use crate::schema::validation::{is_valid, report_all, violation_message, violations};
use crate::schema::{EntitySchema, SchemaModel, ValidationError};
use crate::text::{from_chars, to_chars};
use crate::workspace::workspace_errors::{WorkspaceError, WorkspaceErrorModel};
use crate::workspace::{Workspace, WorkspaceFile};

verus! {

/// What building a workspace yields: the entities of all files, in the order
/// of files and blocks, and all schemas, the built-in ones first.
#[derive(Debug)]
pub struct WorkspaceBuild {
    pub entities: Vec<Entity>,
    pub schemas: Vec<EntitySchema>,
}

impl WorkspaceBuild {
    /// A build of entities and schemas.
    pub fn new(entities: Vec<Entity>, schemas: Vec<EntitySchema>) -> (r: Self)
        ensures
            r.entities == entities,
            r.schemas == schemas,
    {
        WorkspaceBuild { entities, schemas }
    }
}

/// The models of schemas.
pub open spec fn schema_models(schemas: Seq<EntitySchema>) -> Seq<SchemaModel> {
    Seq::new(schemas.len(), |i: int| schemas[i]@)
}

/// The models of entities.
pub open spec fn entity_models(entities: Seq<Entity>) -> Seq<EntityModel> {
    Seq::new(entities.len(), |i: int| entities[i]@)
}

/// The built-in schemas.
pub open spec fn builtin_models() -> Seq<SchemaModel> {
    Seq::new(
        BUILTIN_COUNT as nat,
        |i: int|
            SchemaModel {
                entity_type: snake_case_of(builtin_name(i)),
                fields: builtin_fields(builtin_rows(i)),
            },
    )
}

/// The position of the first schema for an entity type, or the number of
/// schemas.
pub open spec fn schema_position(schemas: Seq<SchemaModel>, entity_type: Seq<char>) -> int
    decreases schemas.len(),
{
    if schemas.len() == 0 {
        0
    } else if schemas[0].entity_type == entity_type {
        0
    } else {
        1 + schema_position(schemas.drop_first(), entity_type)
    }
}

/// A schema for the type with no earlier one for it is at `schema_position`.
pub proof fn lemma_schema_position_is(schemas: Seq<SchemaModel>, entity_type: Seq<char>, k: int)
    requires
        0 <= k <= schemas.len(),
        forall|i: int| 0 <= i < k ==> (#[trigger] schemas[i]).entity_type != entity_type,
        k < schemas.len() ==> schemas[k].entity_type == entity_type,
    ensures
        schema_position(schemas, entity_type) == k,
    decreases schemas.len(),
{
    if schemas.len() > 0 && k > 0 {
        let rest = schemas.drop_first();
        assert(schemas[0].entity_type != entity_type);
        assert forall|i: int| 0 <= i < k - 1 implies (#[trigger] rest[i]).entity_type
            != entity_type by {
            assert(rest[i] == schemas[i + 1]);
        }
        if k < schemas.len() {
            assert(rest[k - 1] == schemas[k]);
        }
        lemma_schema_position_is(rest, entity_type, k - 1);
    }
}

/// The message for a schema whose entity type has a schema already.
pub open spec fn conflict_message(entity_type: Seq<char>) -> Seq<char> {
    "A schema for entity type '"@ + entity_type + "' is already defined"@
}

/// The message for an entity whose type has no schema.
pub open spec fn no_schema_message(entity_type: Seq<char>) -> Seq<char> {
    "No schema found for entity type: '"@ + entity_type + "'"@
}

/// The message for an entity that does not meet its schema: all violations,
/// in order.
pub open spec fn invalid_message(schema: SchemaModel, entity: EntityModel) -> Seq<char> {
    let found = violations(schema, entity);
    "Entity '"@ + entity.id + "' failed validation: "@ + join_text(
        Seq::new(found.len(), |i: int| violation_message(schema, entity, found[i])),
        "; "@,
    )
}

/// The schemas after the first `upto` schema blocks of a file were added to
/// `known`. A block that cannot be converted is an error, and so is a schema
/// for an entity type that has one already, built-in or not. The first error
/// counts.
pub open spec fn with_file_schemas(
    known: Seq<SchemaModel>,
    path: Seq<char>,
    nodes: Seq<SyntaxNode>,
    upto: nat,
) -> Result<Seq<SchemaModel>, WorkspaceErrorModel>
    decreases upto,
{
    if 0 < upto <= nodes.len() {
        match with_file_schemas(known, path, nodes, (upto - 1) as nat) {
            Ok(schemas) => match schema_of(nodes[upto - 1]) {
                Ok(schema) => {
                    if schema_position(schemas, schema.entity_type) < schemas.len() {
                        Err(
                            WorkspaceErrorModel::ValidationError(
                                path,
                                conflict_message(schema.entity_type),
                            ),
                        )
                    } else {
                        Ok(schemas.push(schema))
                    }
                },
                Err(error) => Err(
                    WorkspaceErrorModel::ParseError(path, schema_error_message(error)),
                ),
            },
            Err(error) => Err(error),
        }
    } else {
        Ok(known)
    }
}

/// The schemas after the schema blocks of the first `upto` files were added
/// to `known`.
pub open spec fn with_schemas(
    known: Seq<SchemaModel>,
    files: Seq<(String, WorkspaceFile)>,
    upto: nat,
) -> Result<Seq<SchemaModel>, WorkspaceErrorModel>
    decreases upto,
{
    if 0 < upto <= files.len() {
        match with_schemas(known, files, (upto - 1) as nat) {
            Ok(schemas) => {
                let nodes = blocks_of(files[upto - 1].1.parsed.tree, SCHEMA_BLOCK_KIND@);
                with_file_schemas(schemas, files[upto - 1].0@, nodes, nodes.len())
            },
            Err(error) => Err(error),
        }
    } else {
        Ok(known)
    }
}

/// The entities after the first `upto` entity blocks of a file were added to
/// `found`. A block that cannot be converted is an error, and so is an
/// entity whose type has no schema or that does not meet its schema. The
/// first error counts.
pub open spec fn with_file_entities(
    schemas: Seq<SchemaModel>,
    found: Seq<EntityModel>,
    path: Seq<char>,
    nodes: Seq<SyntaxNode>,
    upto: nat,
    local_offset: i32,
) -> Result<Seq<EntityModel>, WorkspaceErrorModel>
    decreases upto,
{
    if 0 < upto <= nodes.len() {
        match with_file_entities(schemas, found, path, nodes, (upto - 1) as nat, local_offset) {
            Ok(entities) => match entity_of(nodes[upto - 1], local_offset) {
                Ok(entity) => {
                    let at = schema_position(schemas, entity.entity_type);
                    if at >= schemas.len() {
                        Err(
                            WorkspaceErrorModel::ValidationError(
                                path,
                                no_schema_message(entity.entity_type),
                            ),
                        )
                    } else if !is_valid(schemas[at], entity) {
                        Err(
                            WorkspaceErrorModel::ValidationError(
                                path,
                                invalid_message(schemas[at], entity),
                            ),
                        )
                    } else {
                        Ok(entities.push(entity))
                    }
                },
                Err(error) => Err(WorkspaceErrorModel::ParseError(path, error.message())),
            },
            Err(error) => Err(error),
        }
    } else {
        Ok(found)
    }
}

/// The entities of the first `upto` files.
pub open spec fn with_entities(
    schemas: Seq<SchemaModel>,
    files: Seq<(String, WorkspaceFile)>,
    upto: nat,
    local_offset: i32,
) -> Result<Seq<EntityModel>, WorkspaceErrorModel>
    decreases upto,
{
    if 0 < upto <= files.len() {
        match with_entities(schemas, files, (upto - 1) as nat, local_offset) {
            Ok(entities) => {
                let nodes = blocks_of(files[upto - 1].1.parsed.tree, ENTITY_BLOCK_KIND@);
                with_file_entities(
                    schemas,
                    entities,
                    files[upto - 1].0@,
                    nodes,
                    nodes.len(),
                    local_offset,
                )
            },
            Err(error) => Err(error),
        }
    } else {
        Ok(Seq::empty())
    }
}

/// What building the files yields: all schemas and all entities, or the
/// first error. Schemas are gathered from all files before any entity is
/// looked at.
pub open spec fn built(files: Seq<(String, WorkspaceFile)>, local_offset: i32) -> Result<
    (Seq<EntityModel>, Seq<SchemaModel>),
    WorkspaceErrorModel,
> {
    match with_schemas(builtin_models(), files, files.len()) {
        Ok(schemas) => match with_entities(schemas, files, files.len(), local_offset) {
            Ok(entities) => Ok((entities, schemas)),
            Err(error) => Err(error),
        },
        Err(error) => Err(error),
    }
}

/// Once a schema block of a file has failed, the error stays.
proof fn lemma_file_schemas_error_stays(
    known: Seq<SchemaModel>,
    path: Seq<char>,
    nodes: Seq<SyntaxNode>,
    failed: nat,
    upto: nat,
)
    requires
        with_file_schemas(known, path, nodes, failed) is Err,
        failed <= upto <= nodes.len(),
    ensures
        with_file_schemas(known, path, nodes, upto) == with_file_schemas(known, path, nodes, failed),
    decreases upto,
{
    if upto > failed {
        lemma_file_schemas_error_stays(known, path, nodes, failed, (upto - 1) as nat);
    }
}

/// Once the schemas of a file have failed, the error stays.
proof fn lemma_schemas_error_stays(
    known: Seq<SchemaModel>,
    files: Seq<(String, WorkspaceFile)>,
    failed: nat,
    upto: nat,
)
    requires
        with_schemas(known, files, failed) is Err,
        failed <= upto <= files.len(),
    ensures
        with_schemas(known, files, upto) == with_schemas(known, files, failed),
    decreases upto,
{
    if upto > failed {
        lemma_schemas_error_stays(known, files, failed, (upto - 1) as nat);
    }
}

/// Once an entity block of a file has failed, the error stays.
proof fn lemma_file_entities_error_stays(
    schemas: Seq<SchemaModel>,
    found: Seq<EntityModel>,
    path: Seq<char>,
    nodes: Seq<SyntaxNode>,
    failed: nat,
    upto: nat,
    local_offset: i32,
)
    requires
        with_file_entities(schemas, found, path, nodes, failed, local_offset) is Err,
        failed <= upto <= nodes.len(),
    ensures
        with_file_entities(schemas, found, path, nodes, upto, local_offset) == with_file_entities(
            schemas,
            found,
            path,
            nodes,
            failed,
            local_offset,
        ),
    decreases upto,
{
    if upto > failed {
        lemma_file_entities_error_stays(
            schemas,
            found,
            path,
            nodes,
            failed,
            (upto - 1) as nat,
            local_offset,
        );
    }
}

/// Once the entities of a file have failed, the error stays.
proof fn lemma_entities_error_stays(
    schemas: Seq<SchemaModel>,
    files: Seq<(String, WorkspaceFile)>,
    failed: nat,
    upto: nat,
    local_offset: i32,
)
    requires
        with_entities(schemas, files, failed, local_offset) is Err,
        failed <= upto <= files.len(),
    ensures
        with_entities(schemas, files, upto, local_offset) == with_entities(
            schemas,
            files,
            failed,
            local_offset,
        ),
    decreases upto,
{
    if upto > failed {
        lemma_entities_error_stays(schemas, files, failed, (upto - 1) as nat, local_offset);
    }
}

/// Finds the first schema for an entity type.
pub fn find_schema(schemas: &Vec<EntitySchema>, entity_type: &EntityType) -> (r: usize)
    ensures
        r == schema_position(schema_models(schemas@), entity_type@),
        r <= schemas.len(),
{
    let mut i: usize = 0;
    while i < schemas.len() && !schemas[i].entity_type.same_as(entity_type)
        invariant
            i <= schemas.len(),
            forall|j: int|
                0 <= j < i ==> (#[trigger] schema_models(schemas@)[j]).entity_type != entity_type@,
        decreases schemas.len() - i,
    {
        i += 1;
    }
    proof {
        lemma_schema_position_is(schema_models(schemas@), entity_type@, i as int);
    }
    i
}

/// Writes the message for an entity that does not meet its schema.
fn describe_invalid(schema: &EntitySchema, entity: &Entity, errors: &Vec<ValidationError>) -> (r:
    String)
    requires
        report_all(errors@, schema@, entity@, violations(schema@, entity@)),
    ensures
        r@ == invalid_message(schema@, entity@),
{
    let ghost found = violations(schema@, entity@);
    let ghost wanted = Seq::new(found.len(), |i: int| violation_message(schema@, entity@, found[i]));
    let mut messages: Vec<Vec<char>> = Vec::new();
    let mut i: usize = 0;
    while i < errors.len()
        invariant
            i <= errors.len(),
            errors@.len() == found.len(),
            found == violations(schema@, entity@),
            report_all(errors@, schema@, entity@, found),
            messages@.len() == i,
            forall|j: int|
                0 <= j < i ==> (#[trigger] messages@[j])@ == violation_message(
                    schema@,
                    entity@,
                    found[j],
                ),
        decreases errors.len() - i,
    {
        messages.push(to_chars(errors[i].message.as_str()));
        i += 1;
    }
    proof {
        assert(views(messages@) =~= wanted);
    }
    let separator = to_chars("; ");
    let joined = join(&messages, &separator);
    let mut message = String::from_str("Entity '");
    message.append(entity.id.as_str());
    message.append("' failed validation: ");
    message.append(from_chars(&joined).as_str());
    message
}

/// Adds the schemas of a file to the known ones.
fn add_file_schemas(schemas: &mut Vec<EntitySchema>, path: &str, source: &ParsedSource) -> (r:
    Result<(), WorkspaceError>)
    ensures
        ({
            let nodes = blocks_of(source.tree, SCHEMA_BLOCK_KIND@);
            match with_file_schemas(schema_models(old(schemas)@), path@, nodes, nodes.len()) {
                Ok(after) => r is Ok && schema_models(final(schemas)@) == after,
                Err(error) => r is Err && r->Err_0@ == error,
            }
        }),
{
    let parsed_schemas = source.schemas();
    let ghost nodes = blocks_of(source.tree, SCHEMA_BLOCK_KIND@);
    let ghost known = schema_models(schemas@);
    let mut i: usize = 0;
    while i < parsed_schemas.len()
        invariant
            i <= parsed_schemas.len(),
            parsed_schemas@.len() == nodes.len(),
            nodes == blocks_of(source.tree, SCHEMA_BLOCK_KIND@),
            known == schema_models(old(schemas)@),
            forall|j: int|
                0 <= j < parsed_schemas@.len() ==> *(#[trigger] parsed_schemas@[j]).node == nodes[j],
            with_file_schemas(known, path@, nodes, i as nat) == Ok::<
                Seq<SchemaModel>,
                WorkspaceErrorModel,
            >(schema_models(schemas@)),
        decreases parsed_schemas.len() - i,
    {
        let schema = match EntitySchema::try_from(&parsed_schemas[i]) {
            Ok(schema) => schema,
            Err(error) => {
                proof {
                    lemma_file_schemas_error_stays(known, path@, nodes, (i + 1) as nat, nodes.len());
                }
                return Err(WorkspaceError::ParseError(path.to_owned(), error.to_string()));
            },
        };
        if find_schema(schemas, &schema.entity_type) < schemas.len() {
            proof {
                lemma_file_schemas_error_stays(known, path@, nodes, (i + 1) as nat, nodes.len());
            }
            let mut reason = String::from_str("A schema for entity type '");
            reason.append(schema.entity_type.as_str());
            reason.append("' is already defined");
            return Err(WorkspaceError::ValidationError(path.to_owned(), reason));
        }
        let ghost before = schema_models(schemas@);
        schemas.push(schema);
        proof {
            assert(schema_models(schemas@) =~= before.push(schema@));
        }
        i += 1;
    }
    Ok(())
}

/// Adds the entities of a file to those found, each validated against its
/// schema.
fn add_file_entities(
    schemas: &Vec<EntitySchema>,
    entities: &mut Vec<Entity>,
    path: &str,
    source: &ParsedSource,
    local_offset: i32,
) -> (r: Result<(), WorkspaceError>)
    ensures
        ({
            let nodes = blocks_of(source.tree, ENTITY_BLOCK_KIND@);
            match with_file_entities(
                schema_models(schemas@),
                entity_models(old(entities)@),
                path@,
                nodes,
                nodes.len(),
                local_offset,
            ) {
                Ok(after) => r is Ok && entity_models(final(entities)@) == after,
                Err(error) => r is Err && r->Err_0@ == error,
            }
        }),
{
    let parsed_entities = source.entities();
    let ghost nodes = blocks_of(source.tree, ENTITY_BLOCK_KIND@);
    let ghost found = entity_models(entities@);
    let ghost known = schema_models(schemas@);
    let mut i: usize = 0;
    while i < parsed_entities.len()
        invariant
            i <= parsed_entities.len(),
            parsed_entities@.len() == nodes.len(),
            nodes == blocks_of(source.tree, ENTITY_BLOCK_KIND@),
            found == entity_models(old(entities)@),
            known == schema_models(schemas@),
            forall|j: int|
                0 <= j < parsed_entities@.len() ==> *(#[trigger] parsed_entities@[j]).node
                    == nodes[j],
            with_file_entities(known, found, path@, nodes, i as nat, local_offset) == Ok::<
                Seq<EntityModel>,
                WorkspaceErrorModel,
            >(entity_models(entities@)),
        decreases parsed_entities.len() - i,
    {
        let entity = match Entity::try_from_at(&parsed_entities[i], local_offset) {
            Ok(entity) => entity,
            Err(error) => {
                proof {
                    lemma_file_entities_error_stays(
                        known,
                        found,
                        path@,
                        nodes,
                        (i + 1) as nat,
                        nodes.len(),
                        local_offset,
                    );
                }
                return Err(WorkspaceError::ParseError(path.to_owned(), error.to_string()));
            },
        };
        let at = find_schema(schemas, &entity.entity_type);
        if at >= schemas.len() {
            proof {
                lemma_file_entities_error_stays(
                    known,
                    found,
                    path@,
                    nodes,
                    (i + 1) as nat,
                    nodes.len(),
                    local_offset,
                );
            }
            let mut reason = String::from_str("No schema found for entity type: '");
            reason.append(entity.entity_type.as_str());
            reason.append("'");
            return Err(WorkspaceError::ValidationError(path.to_owned(), reason));
        }
        let schema = &schemas[at];
        assert(known[at as int] == schema@);
        match schema.validate(&entity) {
            Ok(_) => {},
            Err(validation_errors) => {
                proof {
                    lemma_file_entities_error_stays(
                        known,
                        found,
                        path@,
                        nodes,
                        (i + 1) as nat,
                        nodes.len(),
                        local_offset,
                    );
                }
                let reason = describe_invalid(schema, &entity, &validation_errors);
                return Err(WorkspaceError::ValidationError(path.to_owned(), reason));
            },
        }
        let ghost before = entity_models(entities@);
        entities.push(entity);
        proof {
            assert(entity_models(entities@) =~= before.push(entity@));
        }
        i += 1;
    }
    Ok(())
}

impl Workspace {
    /// Builds the workspace, dates and times without a zone taken at the
    /// given offset from UTC.
    pub fn build_at(&self, local_offset: i32) -> (r: Result<WorkspaceBuild, WorkspaceError>)
        ensures
            match built(self.files(), local_offset) {
                Ok((entities, schemas)) => r is Ok && entity_models(r->Ok_0.entities@) == entities
                    && schema_models(r->Ok_0.schemas@) == schemas,
                Err(error) => r is Err && r->Err_0@ == error,
            },
    {
        let mut schemas = EntitySchema::all_builtin();
        proof {
            assert(schema_models(schemas@) =~= builtin_models());
        }
        let count = self.num_files();
        let ghost files = self.files();
        let mut i: usize = 0;
        while i < count
            invariant
                i <= count,
                count == self.files().len(),
                files == self.files(),
                with_schemas(builtin_models(), files, i as nat) == Ok::<
                    Seq<SchemaModel>,
                    WorkspaceErrorModel,
                >(schema_models(schemas@)),
            decreases count - i,
        {
            match add_file_schemas(&mut schemas, self.path_at(i), &self.file_at(i).parsed) {
                Ok(_) => {},
                Err(error) => {
                    proof {
                        lemma_schemas_error_stays(
                            builtin_models(),
                            files,
                            (i + 1) as nat,
                            files.len(),
                        );
                    }
                    return Err(error);
                },
            }
            i += 1;
        }
        let mut entities: Vec<Entity> = Vec::new();
        let ghost known = schema_models(schemas@);
        let mut k: usize = 0;
        proof {
            assert(entity_models(entities@) =~= Seq::<EntityModel>::empty());
        }
        while k < count
            invariant
                k <= count,
                count == self.files().len(),
                files == self.files(),
                known == schema_models(schemas@),
                with_schemas(builtin_models(), files, files.len()) == Ok::<
                    Seq<SchemaModel>,
                    WorkspaceErrorModel,
                >(known),
                with_entities(known, files, k as nat, local_offset) == Ok::<
                    Seq<EntityModel>,
                    WorkspaceErrorModel,
                >(entity_models(entities@)),
            decreases count - k,
        {
            match add_file_entities(
                &schemas,
                &mut entities,
                self.path_at(k),
                &self.file_at(k).parsed,
                local_offset,
            ) {
                Ok(_) => {},
                Err(error) => {
                    proof {
                        lemma_entities_error_stays(
                            known,
                            files,
                            (k + 1) as nat,
                            files.len(),
                            local_offset,
                        );
                    }
                    return Err(error);
                },
            }
            k += 1;
        }
        Ok(WorkspaceBuild::new(entities, schemas))
    }

    /// Builds the workspace, dates and times without a zone taken at the
    /// machine's present offset from UTC.
    pub fn build(&self) -> (r: Result<WorkspaceBuild, WorkspaceError>)
        ensures
            exists|offset: i32|
                is_offset(offset as int) && match #[trigger] built(self.files(), offset) {
                    Ok((entities, schemas)) => r is Ok && entity_models(r->Ok_0.entities@)
                        == entities && schema_models(r->Ok_0.schemas@) == schemas,
                    Err(error) => r is Err && r->Err_0@ == error,
                },
    {
        let offset = local_offset_now();
        self.build_at(offset)
    }
}

} // verus!

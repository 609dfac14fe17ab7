//! The built-in schemas: a fixed catalog of entity types, each with its
//! required and optional fields.

use vstd::prelude::*;
use crate::field::FieldType;
use crate::field_map::model_with;
use crate::id::{snake_case_of, EntityType, FieldId};
use crate::schema::{with_metadata_fields, EntitySchema, FieldMode, FieldSchema};

verus! {

/// The declaration of a field: its name, its type and whether it is required.
pub type Row = (&'static str, FieldType, FieldMode);

/// The declarations of a table, names as character sequences.
pub open spec fn rows_of(rows: Seq<Row>) -> Seq<(Seq<char>, FieldType, FieldMode)> {
    Seq::new(rows.len(), |i: int| (rows[i].0@, rows[i].1, rows[i].2))
}

/// The fields of a schema after the first `upto` declarations were added in
/// order, each with the number of fields before it as its order.
pub open spec fn declared(
    fields: Seq<(Seq<char>, FieldSchema)>,
    rows: Seq<(Seq<char>, FieldType, FieldMode)>,
    upto: nat,
) -> Seq<(Seq<char>, FieldSchema)>
    decreases upto,
{
    if 0 < upto <= rows.len() {
        let before = declared(fields, rows, (upto - 1) as nat);
        let row = rows[upto - 1];
        model_with(
            before,
            snake_case_of(row.0),
            FieldSchema { field_type: row.1, field_mode: row.2, order: before.len() as usize },
        )
    } else {
        fields
    }
}

/// The fields of a built-in schema with the given declarations: the common
/// fields, then the declared ones.
pub open spec fn builtin_fields(rows: Seq<(Seq<char>, FieldType, FieldMode)>) -> Seq<
    (Seq<char>, FieldSchema),
> {
    declared(with_metadata_fields(Seq::empty()), rows, rows.len())
}

/// How many built-in schemas there are.
pub const BUILTIN_COUNT: usize = 16;
/// The declared fields of `person`.
pub open spec fn person_rows() -> Seq<(Seq<char>, FieldType, FieldMode)> {
    seq![
        ("name"@, FieldType::String, FieldMode::Required),
        ("email"@, FieldType::String, FieldMode::Optional),
        ("phone"@, FieldType::String, FieldMode::Optional),
        ("urls"@, FieldType::List, FieldMode::Optional),
    ]
}

/// The declared fields of `organization`.
pub open spec fn organization_rows() -> Seq<(Seq<char>, FieldType, FieldMode)> {
    seq![
        ("name"@, FieldType::String, FieldMode::Required),
        ("address"@, FieldType::String, FieldMode::Optional),
        ("email"@, FieldType::String, FieldMode::Optional),
        ("phone"@, FieldType::String, FieldMode::Optional),
        ("urls"@, FieldType::List, FieldMode::Optional),
        ("vat_id"@, FieldType::String, FieldMode::Optional),
        ("industry_ref"@, FieldType::Reference, FieldMode::Optional),
    ]
}

/// The declared fields of `industry`.
pub open spec fn industry_rows() -> Seq<(Seq<char>, FieldType, FieldMode)> {
    seq![
        ("name"@, FieldType::String, FieldMode::Required),
        ("sector"@, FieldType::String, FieldMode::Optional),
        ("classification_code"@, FieldType::String, FieldMode::Optional),
        ("classification_system"@, FieldType::String, FieldMode::Optional),
    ]
}

/// The declared fields of `account`.
pub open spec fn account_rows() -> Seq<(Seq<char>, FieldType, FieldMode)> {
    seq![
        ("name"@, FieldType::String, FieldMode::Required),
        ("organization_ref"@, FieldType::Reference, FieldMode::Required),
        ("owner_ref"@, FieldType::Reference, FieldMode::Optional),
        ("status"@, FieldType::String, FieldMode::Optional),
    ]
}

/// The declared fields of `channel`.
pub open spec fn channel_rows() -> Seq<(Seq<char>, FieldType, FieldMode)> {
    seq![
        ("name"@, FieldType::String, FieldMode::Required),
        ("type"@, FieldType::String, FieldMode::Optional),
        ("description"@, FieldType::String, FieldMode::Optional),
    ]
}

/// The declared fields of `lead`.
pub open spec fn lead_rows() -> Seq<(Seq<char>, FieldType, FieldMode)> {
    seq![
        ("source_ref"@, FieldType::Reference, FieldMode::Required),
        ("status"@, FieldType::String, FieldMode::Required),
        ("person_ref"@, FieldType::Reference, FieldMode::Optional),
        ("account_ref"@, FieldType::Reference, FieldMode::Optional),
        ("score"@, FieldType::Integer, FieldMode::Optional),
    ]
}

/// The declared fields of `contact`.
pub open spec fn contact_rows() -> Seq<(Seq<char>, FieldType, FieldMode)> {
    seq![
        ("source_ref"@, FieldType::Reference, FieldMode::Optional),
        ("person_ref"@, FieldType::Reference, FieldMode::Optional),
        ("account_ref"@, FieldType::Reference, FieldMode::Optional),
        ("role"@, FieldType::String, FieldMode::Optional),
        ("status"@, FieldType::String, FieldMode::Optional),
    ]
}

/// The declared fields of `interaction`.
pub open spec fn interaction_rows() -> Seq<(Seq<char>, FieldType, FieldMode)> {
    seq![
        ("type"@, FieldType::String, FieldMode::Required),
        ("subject"@, FieldType::String, FieldMode::Required),
        ("initiator_ref"@, FieldType::Reference, FieldMode::Required),
        ("primary_contact_ref"@, FieldType::Reference, FieldMode::Required),
        ("interaction_date"@, FieldType::DateTime, FieldMode::Required),
        ("outcome"@, FieldType::String, FieldMode::Optional),
        ("secondary_contacts_ref"@, FieldType::List, FieldMode::Optional),
        ("channel_ref"@, FieldType::Reference, FieldMode::Optional),
        ("opportunity_ref"@, FieldType::Reference, FieldMode::Optional),
    ]
}

/// The declared fields of `opportunity`.
pub open spec fn opportunity_rows() -> Seq<(Seq<char>, FieldType, FieldMode)> {
    seq![
        ("source_ref"@, FieldType::Reference, FieldMode::Required),
        ("name"@, FieldType::String, FieldMode::Required),
        ("status"@, FieldType::String, FieldMode::Required),
        ("value"@, FieldType::Currency, FieldMode::Optional),
        ("probability"@, FieldType::Integer, FieldMode::Optional),
    ]
}

/// The declared fields of `strategy`.
pub open spec fn strategy_rows() -> Seq<(Seq<char>, FieldType, FieldMode)> {
    seq![
        ("name"@, FieldType::String, FieldMode::Required),
        ("description"@, FieldType::String, FieldMode::Optional),
        ("source_ref"@, FieldType::Reference, FieldMode::Optional),
        ("owner_ref"@, FieldType::Reference, FieldMode::Optional),
        ("status"@, FieldType::String, FieldMode::Optional),
        ("start_date"@, FieldType::DateTime, FieldMode::Optional),
        ("end_date"@, FieldType::DateTime, FieldMode::Optional),
    ]
}

/// The declared fields of `objective`.
pub open spec fn objective_rows() -> Seq<(Seq<char>, FieldType, FieldMode)> {
    seq![
        ("name"@, FieldType::String, FieldMode::Required),
        ("description"@, FieldType::String, FieldMode::Optional),
        ("strategy_ref"@, FieldType::Reference, FieldMode::Optional),
        ("owner_ref"@, FieldType::Reference, FieldMode::Optional),
        ("status"@, FieldType::String, FieldMode::Optional),
        ("start_date"@, FieldType::DateTime, FieldMode::Optional),
        ("end_date"@, FieldType::DateTime, FieldMode::Optional),
    ]
}

/// The declared fields of `key_result`.
pub open spec fn key_result_rows() -> Seq<(Seq<char>, FieldType, FieldMode)> {
    seq![
        ("name"@, FieldType::String, FieldMode::Required),
        ("objective_ref"@, FieldType::Reference, FieldMode::Required),
        ("owner_ref"@, FieldType::Reference, FieldMode::Optional),
        ("start_value"@, FieldType::Float, FieldMode::Optional),
        ("target_value"@, FieldType::Float, FieldMode::Optional),
        ("current_value"@, FieldType::Float, FieldMode::Optional),
        ("unit"@, FieldType::String, FieldMode::Optional),
    ]
}

/// The declared fields of `project`.
pub open spec fn project_rows() -> Seq<(Seq<char>, FieldType, FieldMode)> {
    seq![
        ("name"@, FieldType::String, FieldMode::Required),
        ("status"@, FieldType::String, FieldMode::Required),
        ("description"@, FieldType::String, FieldMode::Optional),
        ("owner_ref"@, FieldType::Reference, FieldMode::Optional),
        ("objective_refs"@, FieldType::List, FieldMode::Optional),
        ("due_date"@, FieldType::DateTime, FieldMode::Optional),
    ]
}

/// The declared fields of `task`.
pub open spec fn task_rows() -> Seq<(Seq<char>, FieldType, FieldMode)> {
    seq![
        ("name"@, FieldType::String, FieldMode::Required),
        ("description"@, FieldType::String, FieldMode::Optional),
        ("source_ref"@, FieldType::Reference, FieldMode::Optional),
        ("assignee_ref"@, FieldType::Reference, FieldMode::Optional),
        ("due_date"@, FieldType::DateTime, FieldMode::Optional),
        ("is_completed"@, FieldType::Boolean, FieldMode::Optional),
        ("completed_at"@, FieldType::DateTime, FieldMode::Optional),
    ]
}

/// The declared fields of `review`.
pub open spec fn review_rows() -> Seq<(Seq<char>, FieldType, FieldMode)> {
    seq![
        ("name"@, FieldType::String, FieldMode::Required),
        ("date"@, FieldType::DateTime, FieldMode::Required),
        ("owner_ref"@, FieldType::Reference, FieldMode::Optional),
        ("source_refs"@, FieldType::List, FieldMode::Optional),
        ("attendee_refs"@, FieldType::List, FieldMode::Optional),
    ]
}

/// The declared fields of `file_asset`.
pub open spec fn file_asset_rows() -> Seq<(Seq<char>, FieldType, FieldMode)> {
    seq![
        ("name"@, FieldType::String, FieldMode::Required),
        ("path"@, FieldType::Path, FieldMode::Required),
        ("description"@, FieldType::String, FieldMode::Optional),
        ("source_ref"@, FieldType::Reference, FieldMode::Optional),
        ("owner_ref"@, FieldType::Reference, FieldMode::Optional),
    ]
}

/// The name of the built-in schema at a place in the catalog.
pub open spec fn builtin_name(index: int) -> Seq<char> {
    if index == 0 {
        "person"@
    } else if index == 1 {
        "organization"@
    } else if index == 2 {
        "industry"@
    } else if index == 3 {
        "account"@
    } else if index == 4 {
        "channel"@
    } else if index == 5 {
        "lead"@
    } else if index == 6 {
        "contact"@
    } else if index == 7 {
        "interaction"@
    } else if index == 8 {
        "opportunity"@
    } else if index == 9 {
        "strategy"@
    } else if index == 10 {
        "objective"@
    } else if index == 11 {
        "key_result"@
    } else if index == 12 {
        "project"@
    } else if index == 13 {
        "task"@
    } else if index == 14 {
        "review"@
    } else {
        "file_asset"@
    }
}

/// The declared fields of the built-in schema at a place in the catalog.
pub open spec fn builtin_rows(index: int) -> Seq<(Seq<char>, FieldType, FieldMode)> {
    if index == 0 {
        person_rows()
    } else if index == 1 {
        organization_rows()
    } else if index == 2 {
        industry_rows()
    } else if index == 3 {
        account_rows()
    } else if index == 4 {
        channel_rows()
    } else if index == 5 {
        lead_rows()
    } else if index == 6 {
        contact_rows()
    } else if index == 7 {
        interaction_rows()
    } else if index == 8 {
        opportunity_rows()
    } else if index == 9 {
        strategy_rows()
    } else if index == 10 {
        objective_rows()
    } else if index == 11 {
        key_result_rows()
    } else if index == 12 {
        project_rows()
    } else if index == 13 {
        task_rows()
    } else if index == 14 {
        review_rows()
    } else {
        file_asset_rows()
    }
}

/// Whether a schema is the built-in one with the given name and declared
/// fields.
pub open spec fn is_builtin(
    schema: EntitySchema,
    name: Seq<char>,
    rows: Seq<(Seq<char>, FieldType, FieldMode)>,
) -> bool {
    &&& schema.entity_type@ == snake_case_of(name)
    &&& schema.fields@ == builtin_fields(rows)
    &&& schema.fields.wf()
}

/// Makes a built-in schema from its name and its declarations.
fn from_rows(name: &str, rows: Vec<Row>) -> (r: EntitySchema)
    ensures
        is_builtin(r, name@, rows_of(rows@)),
{
    let mut schema = EntitySchema::new(EntityType::new(name)).with_metadata();
    let ghost table = rows_of(rows@);
    let mut i: usize = 0;
    while i < rows.len()
        invariant
            i <= rows.len(),
            table == rows_of(rows@),
            schema.entity_type@ == snake_case_of(name@),
            schema.fields@ == declared(with_metadata_fields(Seq::empty()), table, i as nat),
            schema.fields.wf(),
        decreases rows.len() - i,
    {
        let row = rows[i];
        assert(table[i as int] == (row.0@, row.1, row.2));
        let order = schema.next_order();
        schema = schema.add_field_schema(FieldId::new(row.0), FieldSchema::new(row.1, row.2, order));
        i += 1;
    }
    schema
}

impl EntitySchema {
    /// All built-in schemas, in the order of the catalog.
    pub fn all_builtin() -> (r: Vec<EntitySchema>)
        ensures
            r@.len() == BUILTIN_COUNT,
            forall|i: int|
                0 <= i < r@.len() ==> is_builtin(#[trigger] r@[i], builtin_name(i), builtin_rows(i)),
    {
        let mut all: Vec<EntitySchema> = Vec::new();
        all.push(EntitySchema::person());
        all.push(EntitySchema::organization());
        all.push(EntitySchema::industry());
        all.push(EntitySchema::account());
        all.push(EntitySchema::channel());
        all.push(EntitySchema::lead());
        all.push(EntitySchema::contact());
        all.push(EntitySchema::interaction());
        all.push(EntitySchema::opportunity());
        all.push(EntitySchema::strategy());
        all.push(EntitySchema::objective());
        all.push(EntitySchema::key_result());
        all.push(EntitySchema::project());
        all.push(EntitySchema::task());
        all.push(EntitySchema::review());
        all.push(EntitySchema::file_asset());
        all
    }

    /// An individual person: an employee, a customer, a partner.
    pub fn person() -> (r: Self)
        ensures
            is_builtin(r, "person"@, person_rows()),
    {
        let rows: Vec<Row> = vec![
            ("name", FieldType::String, FieldMode::Required),
            ("email", FieldType::String, FieldMode::Optional),
            ("phone", FieldType::String, FieldMode::Optional),
            ("urls", FieldType::List, FieldMode::Optional),
        ];
        assert(rows_of(rows@) =~= person_rows());
        from_rows("person", rows)
    }

    /// An organization, company or group.
    pub fn organization() -> (r: Self)
        ensures
            is_builtin(r, "organization"@, organization_rows()),
    {
        let rows: Vec<Row> = vec![
            ("name", FieldType::String, FieldMode::Required),
            ("address", FieldType::String, FieldMode::Optional),
            ("email", FieldType::String, FieldMode::Optional),
            ("phone", FieldType::String, FieldMode::Optional),
            ("urls", FieldType::List, FieldMode::Optional),
            ("vat_id", FieldType::String, FieldMode::Optional),
            ("industry_ref", FieldType::Reference, FieldMode::Optional),
        ];
        assert(rows_of(rows@) =~= organization_rows());
        from_rows("organization", rows)
    }

    /// An industry or business sector, by which organizations are classified.
    pub fn industry() -> (r: Self)
        ensures
            is_builtin(r, "industry"@, industry_rows()),
    {
        let rows: Vec<Row> = vec![
            ("name", FieldType::String, FieldMode::Required),
            ("sector", FieldType::String, FieldMode::Optional),
            ("classification_code", FieldType::String, FieldMode::Optional),
            ("classification_system", FieldType::String, FieldMode::Optional),
        ];
        assert(rows_of(rows@) =~= industry_rows());
        from_rows("industry", rows)
    }

    /// A business relationship with an organization, typically a customer.
    pub fn account() -> (r: Self)
        ensures
            is_builtin(r, "account"@, account_rows()),
    {
        let rows: Vec<Row> = vec![
            ("name", FieldType::String, FieldMode::Required),
            ("organization_ref", FieldType::Reference, FieldMode::Required),
            ("owner_ref", FieldType::Reference, FieldMode::Optional),
            ("status", FieldType::String, FieldMode::Optional),
        ];
        assert(rows_of(rows@) =~= account_rows());
        from_rows("account", rows)
    }

    /// A communication or marketing channel, where interactions, leads and
    /// opportunities come from.
    pub fn channel() -> (r: Self)
        ensures
            is_builtin(r, "channel"@, channel_rows()),
    {
        let rows: Vec<Row> = vec![
            ("name", FieldType::String, FieldMode::Required),
            ("type", FieldType::String, FieldMode::Optional),
            ("description", FieldType::String, FieldMode::Optional),
        ];
        assert(rows_of(rows@) =~= channel_rows());
        from_rows("channel", rows)
    }

    /// A potential business lead: a first expression of interest.
    pub fn lead() -> (r: Self)
        ensures
            is_builtin(r, "lead"@, lead_rows()),
    {
        let rows: Vec<Row> = vec![
            ("source_ref", FieldType::Reference, FieldMode::Required),
            ("status", FieldType::String, FieldMode::Required),
            ("person_ref", FieldType::Reference, FieldMode::Optional),
            ("account_ref", FieldType::Reference, FieldMode::Optional),
            ("score", FieldType::Integer, FieldMode::Optional),
        ];
        assert(rows_of(rows@) =~= lead_rows());
        from_rows("lead", rows)
    }

    /// A person in the context of a business relationship.
    pub fn contact() -> (r: Self)
        ensures
            is_builtin(r, "contact"@, contact_rows()),
    {
        let rows: Vec<Row> = vec![
            ("source_ref", FieldType::Reference, FieldMode::Optional),
            ("person_ref", FieldType::Reference, FieldMode::Optional),
            ("account_ref", FieldType::Reference, FieldMode::Optional),
            ("role", FieldType::String, FieldMode::Optional),
            ("status", FieldType::String, FieldMode::Optional),
        ];
        assert(rows_of(rows@) =~= contact_rows());
        from_rows("contact", rows)
    }

    /// An interaction: a meeting, a call, an email or any other touchpoint.
    pub fn interaction() -> (r: Self)
        ensures
            is_builtin(r, "interaction"@, interaction_rows()),
    {
        let rows: Vec<Row> = vec![
            ("type", FieldType::String, FieldMode::Required),
            ("subject", FieldType::String, FieldMode::Required),
            ("initiator_ref", FieldType::Reference, FieldMode::Required),
            ("primary_contact_ref", FieldType::Reference, FieldMode::Required),
            ("interaction_date", FieldType::DateTime, FieldMode::Required),
            ("outcome", FieldType::String, FieldMode::Optional),
            ("secondary_contacts_ref", FieldType::List, FieldMode::Optional),
            ("channel_ref", FieldType::Reference, FieldMode::Optional),
            ("opportunity_ref", FieldType::Reference, FieldMode::Optional),
        ];
        assert(rows_of(rows@) =~= interaction_rows());
        from_rows("interaction", rows)
    }

    /// A potential sale or business deal.
    pub fn opportunity() -> (r: Self)
        ensures
            is_builtin(r, "opportunity"@, opportunity_rows()),
    {
        let rows: Vec<Row> = vec![
            ("source_ref", FieldType::Reference, FieldMode::Required),
            ("name", FieldType::String, FieldMode::Required),
            ("status", FieldType::String, FieldMode::Required),
            ("value", FieldType::Currency, FieldMode::Optional),
            ("probability", FieldType::Integer, FieldMode::Optional),
        ];
        assert(rows_of(rows@) =~= opportunity_rows());
        from_rows("opportunity", rows)
    }

    /// A high-level, long-term plan or goal.
    pub fn strategy() -> (r: Self)
        ensures
            is_builtin(r, "strategy"@, strategy_rows()),
    {
        let rows: Vec<Row> = vec![
            ("name", FieldType::String, FieldMode::Required),
            ("description", FieldType::String, FieldMode::Optional),
            ("source_ref", FieldType::Reference, FieldMode::Optional),
            ("owner_ref", FieldType::Reference, FieldMode::Optional),
            ("status", FieldType::String, FieldMode::Optional),
            ("start_date", FieldType::DateTime, FieldMode::Optional),
            ("end_date", FieldType::DateTime, FieldMode::Optional),
        ];
        assert(rows_of(rows@) =~= strategy_rows());
        from_rows("strategy", rows)
    }

    /// A measurable goal that contributes to a strategy.
    pub fn objective() -> (r: Self)
        ensures
            is_builtin(r, "objective"@, objective_rows()),
    {
        let rows: Vec<Row> = vec![
            ("name", FieldType::String, FieldMode::Required),
            ("description", FieldType::String, FieldMode::Optional),
            ("strategy_ref", FieldType::Reference, FieldMode::Optional),
            ("owner_ref", FieldType::Reference, FieldMode::Optional),
            ("status", FieldType::String, FieldMode::Optional),
            ("start_date", FieldType::DateTime, FieldMode::Optional),
            ("end_date", FieldType::DateTime, FieldMode::Optional),
        ];
        assert(rows_of(rows@) =~= objective_rows());
        from_rows("objective", rows)
    }

    /// A measurable outcome by which an objective is tracked.
    pub fn key_result() -> (r: Self)
        ensures
            is_builtin(r, "key_result"@, key_result_rows()),
    {
        let rows: Vec<Row> = vec![
            ("name", FieldType::String, FieldMode::Required),
            ("objective_ref", FieldType::Reference, FieldMode::Required),
            ("owner_ref", FieldType::Reference, FieldMode::Optional),
            ("start_value", FieldType::Float, FieldMode::Optional),
            ("target_value", FieldType::Float, FieldMode::Optional),
            ("current_value", FieldType::Float, FieldMode::Optional),
            ("unit", FieldType::String, FieldMode::Optional),
        ];
        assert(rows_of(rows@) =~= key_result_rows());
        from_rows("key_result", rows)
    }

    /// A planned initiative to achieve objectives.
    pub fn project() -> (r: Self)
        ensures
            is_builtin(r, "project"@, project_rows()),
    {
        let rows: Vec<Row> = vec![
            ("name", FieldType::String, FieldMode::Required),
            ("status", FieldType::String, FieldMode::Required),
            ("description", FieldType::String, FieldMode::Optional),
            ("owner_ref", FieldType::Reference, FieldMode::Optional),
            ("objective_refs", FieldType::List, FieldMode::Optional),
            ("due_date", FieldType::DateTime, FieldMode::Optional),
        ];
        assert(rows_of(rows@) =~= project_rows());
        from_rows("project", rows)
    }

    /// A single, actionable unit of work.
    pub fn task() -> (r: Self)
        ensures
            is_builtin(r, "task"@, task_rows()),
    {
        let rows: Vec<Row> = vec![
            ("name", FieldType::String, FieldMode::Required),
            ("description", FieldType::String, FieldMode::Optional),
            ("source_ref", FieldType::Reference, FieldMode::Optional),
            ("assignee_ref", FieldType::Reference, FieldMode::Optional),
            ("due_date", FieldType::DateTime, FieldMode::Optional),
            ("is_completed", FieldType::Boolean, FieldMode::Optional),
            ("completed_at", FieldType::DateTime, FieldMode::Optional),
        ];
        assert(rows_of(rows@) =~= task_rows());
        from_rows("task", rows)
    }

    /// A periodic review or meeting.
    pub fn review() -> (r: Self)
        ensures
            is_builtin(r, "review"@, review_rows()),
    {
        let rows: Vec<Row> = vec![
            ("name", FieldType::String, FieldMode::Required),
            ("date", FieldType::DateTime, FieldMode::Required),
            ("owner_ref", FieldType::Reference, FieldMode::Optional),
            ("source_refs", FieldType::List, FieldMode::Optional),
            ("attendee_refs", FieldType::List, FieldMode::Optional),
        ];
        assert(rows_of(rows@) =~= review_rows());
        from_rows("review", rows)
    }

    /// A digital file or document.
    pub fn file_asset() -> (r: Self)
        ensures
            is_builtin(r, "file_asset"@, file_asset_rows()),
    {
        let rows: Vec<Row> = vec![
            ("name", FieldType::String, FieldMode::Required),
            ("path", FieldType::Path, FieldMode::Required),
            ("description", FieldType::String, FieldMode::Optional),
            ("source_ref", FieldType::Reference, FieldMode::Optional),
            ("owner_ref", FieldType::Reference, FieldMode::Optional),
        ];
        assert(rows_of(rows@) =~= file_asset_rows());
        from_rows("file_asset", rows)
    }
}

} // verus!

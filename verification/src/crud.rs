//! The generic CRUD service: INSERT, UPDATE, DELETE and point-SELECT
//! statements over dynamic column sets, with audit-field injection, and the
//! classification of store failures into the error taxonomy.
//!
//! The service builds statements and interprets store answers; executing
//! them against a store is the boundary's job.

use vstd::prelude::*;
use vstd::string::StringExecFns;
use crate::builder::{
    condition_args, count_query_text, include_of, row_query_args, row_query_text, strs_ref,
    QueryBuilder,
};
use crate::errors::AppError;
use crate::params::QueryParams;
use crate::strutil::{dec_str, first_match, join_strs, strs};
use crate::values::{args_view, arg_of_scalar, ArgValue, ArgValueView, JsonScalar};

verus! {

/// One parameterized statement: its text and the values bound to its
/// placeholders, in order.
#[derive(Debug)]
pub struct Statement {
    pub sql: String,
    pub args: Vec<ArgValue>,
}

/// The system-managed columns that caller input may never set.
pub open spec fn is_system_column(name: Seq<char>) -> bool {
    name == "id"@ || name == "created_by"@ || name == "updated_by"@ || name == "created_at"@
        || name == "updated_at"@
}

fn system_column(name: &str) -> (r: bool)
    ensures
        r == is_system_column(name@),
{
    let owned: String = name.to_owned();
    owned == "id".to_owned() || owned == "created_by".to_owned() || owned
        == "updated_by".to_owned() || owned == "created_at".to_owned() || owned
        == "updated_at".to_owned()
}

/// The keys of the payload entries that survive stripping the system
/// columns, in payload order.
pub open spec fn retained_keys(entries: Seq<(String, JsonScalar)>) -> Seq<Seq<char>>
    decreases entries.len(),
{
    if entries.len() == 0 {
        Seq::<Seq<char>>::empty()
    } else if is_system_column(entries[0].0@) {
        retained_keys(entries.drop_first())
    } else {
        seq![entries[0].0@] + retained_keys(entries.drop_first())
    }
}

/// The bound values of the surviving payload entries, in payload order.
pub open spec fn retained_args(entries: Seq<(String, JsonScalar)>) -> Seq<ArgValueView>
    decreases entries.len(),
{
    if entries.len() == 0 {
        Seq::<ArgValueView>::empty()
    } else if is_system_column(entries[0].0@) {
        retained_args(entries.drop_first())
    } else {
        seq![arg_of_scalar(entries[0].1)] + retained_args(entries.drop_first())
    }
}

/// The SET assignments of an update, numbering placeholders from `n`.
pub open spec fn update_set_from(entries: Seq<(String, JsonScalar)>, n: int) -> Seq<Seq<char>>
    decreases entries.len(),
{
    if entries.len() == 0 {
        Seq::<Seq<char>>::empty()
    } else if is_system_column(entries[0].0@) {
        update_set_from(entries.drop_first(), n)
    } else {
        seq![entries[0].0@ + " = $"@ + dec_str(n as nat)] + update_set_from(
            entries.drop_first(),
            n + 1,
        )
    }
}

/// The three views stay in step: one surviving entry, one key, one value,
/// one SET assignment.
pub proof fn lemma_retained_counts(entries: Seq<(String, JsonScalar)>, n: int)
    ensures
        retained_args(entries).len() == retained_keys(entries).len(),
        update_set_from(entries, n).len() == retained_keys(entries).len(),
    decreases entries.len(),
{
    if entries.len() > 0 {
        lemma_retained_counts(entries.drop_first(), n);
        lemma_retained_counts(entries.drop_first(), n + 1);
    }
}

/// The positional placeholders `$1` through `$n`.
pub open spec fn placeholders(n: nat) -> Seq<Seq<char>> {
    Seq::new(n, |i: int| "$"@ + dec_str((i + 1) as nat))
}

/// The full INSERT of a create: the generated identifier and both audit
/// columns first, then every surviving payload column, one placeholder
/// each, returning the stored row.
pub open spec fn insert_text(table: Seq<char>, entries: Seq<(String, JsonScalar)>) -> Seq<char> {
    "INSERT INTO "@ + table + " ("@ + join_strs(
        seq!["id"@, "created_by"@, "updated_by"@] + retained_keys(entries),
        ", "@,
    ) + ") VALUES ("@ + join_strs(placeholders((3 + retained_keys(entries).len()) as nat), ", "@)
        + ") RETURNING *"@
}

/// What a create binds: the fresh identifier, the caller identity twice,
/// then the surviving payload values.
pub open spec fn insert_args(
    id: Seq<char>,
    actor: Seq<char>,
    entries: Seq<(String, JsonScalar)>,
) -> Seq<ArgValueView> {
    seq![
        ArgValueView::Identifier(id),
        ArgValueView::Identifier(actor),
        ArgValueView::Identifier(actor),
    ] + retained_args(entries)
}

/// The full UPDATE of an update: both audit columns forced, then every
/// surviving payload column, the row picked by identifier, returning the
/// stored row.
pub open spec fn update_text(table: Seq<char>, entries: Seq<(String, JsonScalar)>) -> Seq<char> {
    "UPDATE "@ + table + " SET "@ + join_strs(
        seq!["updated_by = $1"@, "updated_at = NOW()"@] + update_set_from(entries, 2),
        ", "@,
    ) + " WHERE id = $"@ + dec_str((retained_keys(entries).len() + 2) as nat) + " RETURNING *"@
}

/// What an update binds: the caller identity, the surviving payload
/// values, then the row identifier.
pub open spec fn update_args(
    actor: Seq<char>,
    id: Seq<char>,
    entries: Seq<(String, JsonScalar)>,
) -> Seq<ArgValueView> {
    seq![ArgValueView::Identifier(actor)] + retained_args(entries) + seq![
        ArgValueView::Identifier(id),
    ]
}

/// The field and value out of a unique-violation detail of the form
/// `Key (field)=(value) already exists`, where the detail has that form.
pub open spec fn unique_detail_parts(d: Seq<char>) -> Option<(Seq<char>, Seq<char>)> {
    let a = first_match(d, "Key ("@);
    if a < 0 {
        None
    } else {
        let rest1 = d.skip(a + 5);
        let b = first_match(rest1, ")=("@);
        if b < 0 {
            None
        } else {
            let rest2 = rest1.skip(b + 3);
            let c = first_match(rest2, ")"@);
            if c < 0 {
                None
            } else {
                Some((rest1.take(b), rest2.take(c)))
            }
        }
    }
}

/// Extracts field and value from a unique-violation detail, exactly as
/// `unique_detail_parts` describes.
fn parse_unique_detail(detail: &str) -> (r: Option<(String, String)>)
    ensures
        r is Some <==> unique_detail_parts(detail@) is Some,
        r matches Some(p) ==> unique_detail_parts(detail@) == Some((p.0@, p.1@)),
{
    proof {
        reveal_strlit("Key (");
        reveal_strlit(")=(");
        reveal_strlit(")");
    }
    let len = detail.unicode_len();
    let a = match crate::strutil::find_sub(detail, "Key (") {
        Some(a) => a,
        None => {
            return None;
        },
    };
    proof {
        crate::strutil::lemma_first_match_is_match(detail@, "Key ("@);
    }
    let rest1 = detail.substring_char(a + 5, len);
    proof {
        assert(rest1@ =~= detail@.skip(a + 5));
    }
    let b = match crate::strutil::find_sub(rest1, ")=(") {
        Some(b) => b,
        None => {
            return None;
        },
    };
    proof {
        crate::strutil::lemma_first_match_is_match(rest1@, ")=("@);
    }
    let field = rest1.substring_char(0, b);
    let rest1_len = rest1.unicode_len();
    let rest2 = rest1.substring_char(b + 3, rest1_len);
    proof {
        assert(field@ =~= rest1@.take(b as int));
        assert(rest2@ =~= rest1@.skip(b + 3));
    }
    let c = match crate::strutil::find_sub(rest2, ")") {
        Some(c) => c,
        None => {
            return None;
        },
    };
    proof {
        crate::strutil::lemma_first_match_is_match(rest2@, ")"@);
    }
    let value = rest2.substring_char(0, c);
    proof {
        assert(value@ =~= rest2@.take(c as int));
    }
    Some((String::from_str(field), String::from_str(value)))
}

/// Recasts a store failure into the taxonomy by its SQLSTATE: a unique
/// violation surfaces as `AlreadyExists` with the field and value out of
/// the store's detail, a foreign-key violation as `BusinessRule`, and
/// everything else as `DatabaseError`.
pub fn classify_store_error(sqlstate: &str, entity: &str, detail: &str) -> (r: AppError)
    ensures
        sqlstate@ == "23505"@ ==> (r matches AppError::AlreadyExists { entity: e, field, value }
            && e@ == entity@ && (match unique_detail_parts(detail@) {
            Some(p) => field@ == p.0 && value@ == p.1,
            None => field@.len() == 0 && value@ == detail@,
        })),
        sqlstate@ == "23503"@ ==> (r matches AppError::BusinessRule(m) && m@ == detail@),
        sqlstate@ != "23505"@ && sqlstate@ != "23503"@ ==> (r matches AppError::DatabaseError(m)
            && m@ == detail@),
{
    proof {
        reveal_strlit("23505");
        reveal_strlit("23503");
        assert("23505"@[4] == '5');
        assert("23503"@[4] == '3');
        assert("23505"@ != "23503"@);
    }
    let code: String = sqlstate.to_owned();
    if code == "23505".to_owned() {
        match parse_unique_detail(detail) {
            Some(p) => AppError::AlreadyExists { entity: entity.to_owned(), field: p.0, value: p.1 },
            None => AppError::AlreadyExists {
                entity: entity.to_owned(),
                field: String::new(),
                value: detail.to_owned(),
            },
        }
    } else if code == "23503".to_owned() {
        AppError::BusinessRule(detail.to_owned())
    } else {
        AppError::DatabaseError(detail.to_owned())
    }
}

fn copy_refs<'a>(v: &Vec<&'a str>) -> (r: Vec<&'a str>)
    ensures
        r@ == v@,
{
    let mut out: Vec<&'a str> = Vec::new();
    let mut i: usize = 0;
    while i < v.len()
        invariant
            i <= v.len(),
            out@ =~= v@.take(i as int),
        decreases v.len() - i,
    {
        out.push(v[i]);
        proof {
            assert(out@ =~= v@.take(i as int + 1));
        }
        i = i + 1;
    }
    proof {
        assert(v@.take(v@.len() as int) =~= v@);
    }
    out
}

/// What a list of include registrations leaves registered under `name`:
/// the join clause and extra columns of the last entry with that name.
pub open spec fn registered_include(
    includes: Seq<(&str, &str, Vec<&str>)>,
    name: Seq<char>,
) -> Option<(Seq<char>, Seq<Seq<char>>)>
    decreases includes.len(),
{
    if includes.len() == 0 {
        None
    } else if includes.last().0@ == name {
        Some((includes.last().1@, strs_ref(includes.last().2@)))
    } else {
        registered_include(includes.drop_last(), name)
    }
}

/// Whether a builder's relations read exactly as a registration list.
pub open spec fn relations_match(
    rels: Seq<(String, crate::builder::IncludeConfig)>,
    includes: Seq<(&str, &str, Vec<&str>)>,
) -> bool {
    forall|name: Seq<char>|
        match #[trigger] include_of(rels, name) {
            Some(c) => registered_include(includes, name) matches Some(p) && c.join_clause@ == p.0
                && strs(c.select_fields@) == p.1,
            None => registered_include(includes, name) is None,
        }
}

/// The generic CRUD service over any one table.
pub struct CrudService;

impl CrudService {
    /// Configures a builder for one resource: its table, projection,
    /// whitelists, static joins and optional relations.
    fn configure(
        table: &str,
        select_fields: Vec<&str>,
        searchable_fields: Vec<&str>,
        filterable_fields: Vec<&str>,
        sortable_fields: Vec<&str>,
        joins: Vec<&str>,
        includes: Vec<(&str, &str, Vec<&str>)>,
    ) -> (r: QueryBuilder)
        ensures
            r.table@ == table@,
            strs(r.select_fields@) == strs_ref(select_fields@),
            strs(r.search_fields@) == strs_ref(searchable_fields@),
            strs(r.filterable_fields@) == strs_ref(filterable_fields@),
            strs(r.sortable_fields@) == strs_ref(sortable_fields@),
            strs(r.joins@) == strs_ref(joins@),
            relations_match(r.include_relations@, includes@),
    {
        let ghost joins_views = strs_ref(joins@);
        let ghost includes_list = includes@;
        let mut builder = QueryBuilder::new(table)
            .select(select_fields)
            .searchable(searchable_fields)
            .filterable(filterable_fields)
            .sortable(sortable_fields);
        proof {
            assert(strs(builder.joins@) =~= joins_views.take(0));
        }
        for i in 0..joins.len()
            invariant
                joins_views == strs_ref(joins@),
                strs(builder.joins@) == joins_views.take(i as int),
                builder.table@ == table@,
                strs(builder.select_fields@) == strs_ref(select_fields@),
                strs(builder.search_fields@) == strs_ref(searchable_fields@),
                strs(builder.filterable_fields@) == strs_ref(filterable_fields@),
                strs(builder.sortable_fields@) == strs_ref(sortable_fields@),
                builder.include_relations@.len() == 0,
        {
            builder = builder.join(joins[i]);
            proof {
                assert(strs(builder.joins@) =~= joins_views.take(i as int + 1));
            }
        }
        proof {
            assert(joins_views.take(joins@.len() as int) =~= joins_views);
        }
        let mut k: usize = 0;
        proof {
            assert forall|name: Seq<char>|
                match #[trigger] include_of(builder.include_relations@, name) {
                    Some(c) => registered_include(includes_list.take(0), name) matches Some(p)
                        && c.join_clause@ == p.0 && strs(c.select_fields@) == p.1,
                    None => registered_include(includes_list.take(0), name) is None,
                } by {
                assert(includes_list.take(0).len() == 0);
            }
        }
        while k < includes.len()
            invariant
                k <= includes.len(),
                includes_list == includes@,
                builder.table@ == table@,
                strs(builder.select_fields@) == strs_ref(select_fields@),
                strs(builder.search_fields@) == strs_ref(searchable_fields@),
                strs(builder.filterable_fields@) == strs_ref(filterable_fields@),
                strs(builder.sortable_fields@) == strs_ref(sortable_fields@),
                strs(builder.joins@) == strs_ref(joins@),
                relations_match(builder.include_relations@, includes_list.take(k as int)),
            decreases includes.len() - k,
        {
            let ghost pre = builder.include_relations@;
            let extra: Vec<&str> = copy_refs(&includes[k].2);
            builder = builder.include_relation(includes[k].0, includes[k].1, extra);
            proof {
                let done = includes_list.take(k as int + 1);
                assert(done.drop_last() =~= includes_list.take(k as int));
                assert(done.last() == includes_list[k as int]);
                assert forall|name: Seq<char>|
                    match #[trigger] include_of(builder.include_relations@, name) {
                        Some(c) => registered_include(done, name) matches Some(p)
                            && c.join_clause@ == p.0 && strs(c.select_fields@) == p.1,
                        None => registered_include(done, name) is None,
                    } by {
                    if name != includes_list[k as int].0@ {
                        assert(include_of(builder.include_relations@, name) == include_of(
                            pre,
                            name,
                        ));
                    }
                }
            }
            k = k + 1;
        }
        proof {
            assert(includes_list.take(includes@.len() as int) =~= includes_list);
        }
        builder
    }

    /// The two statements of a list request over one resource: the count
    /// and the rows, built over one shared predicate list, with the
    /// effective page and page size. The configured builder comes back
    /// with them, pinning what every piece of text was built from.
    pub fn get_list(
        table: &str,
        select_fields: Vec<&str>,
        searchable_fields: Vec<&str>,
        filterable_fields: Vec<&str>,
        sortable_fields: Vec<&str>,
        joins: Vec<&str>,
        params: &QueryParams,
    ) -> (r: (QueryBuilder, Statement, Statement, u32, u32))
        ensures
            r.0.table@ == table@,
            strs(r.0.select_fields@) == strs_ref(select_fields@),
            strs(r.0.search_fields@) == strs_ref(searchable_fields@),
            strs(r.0.filterable_fields@) == strs_ref(filterable_fields@),
            strs(r.0.sortable_fields@) == strs_ref(sortable_fields@),
            strs(r.0.joins@) == strs_ref(joins@),
            r.0.include_relations@.len() == 0,
            r.1.sql@ == count_query_text(r.0, *params),
            args_view(r.1.args@) == condition_args(r.0, *params),
            r.2.sql@ == row_query_text(r.0, *params),
            args_view(r.2.args@) == row_query_args(r.0, *params),
            r.3 == crate::params::effective_page_spec(*params),
            r.4 == crate::params::effective_per_page_spec(*params),
    {
        let builder = Self::configure(
            table,
            select_fields,
            searchable_fields,
            filterable_fields,
            sortable_fields,
            joins,
            Vec::new(),
        );
        proof {
            assert(builder.include_relations@.len() == 0) by {
                if builder.include_relations@.len() > 0 {
                    let witness = builder.include_relations@[0].0@;
                    assert(include_of(builder.include_relations@, witness) is Some);
                }
            }
        }
        let (count_sql, count_args) = builder.build_count_query(params);
        let (row_sql, row_args, page, per_page) = builder.build_query(params);
        (
            builder,
            Statement { sql: count_sql, args: count_args },
            Statement { sql: row_sql, args: row_args },
            page,
            per_page,
        )
    }

    /// As `get_list`, with optional named relations registered; a name
    /// registered twice keeps its last registration.
    pub fn get_list_with_includes(
        table: &str,
        select_fields: Vec<&str>,
        searchable_fields: Vec<&str>,
        filterable_fields: Vec<&str>,
        sortable_fields: Vec<&str>,
        joins: Vec<&str>,
        includes: Vec<(&str, &str, Vec<&str>)>,
        params: &QueryParams,
    ) -> (r: (QueryBuilder, Statement, Statement, u32, u32))
        ensures
            r.0.table@ == table@,
            strs(r.0.select_fields@) == strs_ref(select_fields@),
            strs(r.0.search_fields@) == strs_ref(searchable_fields@),
            strs(r.0.filterable_fields@) == strs_ref(filterable_fields@),
            strs(r.0.sortable_fields@) == strs_ref(sortable_fields@),
            strs(r.0.joins@) == strs_ref(joins@),
            relations_match(r.0.include_relations@, includes@),
            r.1.sql@ == count_query_text(r.0, *params),
            args_view(r.1.args@) == condition_args(r.0, *params),
            r.2.sql@ == row_query_text(r.0, *params),
            args_view(r.2.args@) == row_query_args(r.0, *params),
            r.3 == crate::params::effective_page_spec(*params),
            r.4 == crate::params::effective_per_page_spec(*params),
    {
        let builder = Self::configure(
            table,
            select_fields,
            searchable_fields,
            filterable_fields,
            sortable_fields,
            joins,
            includes,
        );
        let (count_sql, count_args) = builder.build_count_query(params);
        let (row_sql, row_args, page, per_page) = builder.build_query(params);
        (
            builder,
            Statement { sql: count_sql, args: count_args },
            Statement { sql: row_sql, args: row_args },
            page,
            per_page,
        )
    }
    /// The INSERT of a create: caller input is flattened to entries, the
    /// system columns are stripped out of it, and a fresh identifier plus
    /// both audit columns are bound in their place. Returns the statement
    /// and the generated identifier.
    pub fn create(table: &str, payload: &Vec<(String, JsonScalar)>, actor_id: &str) -> (r: (
        Statement,
        String,
    ))
        ensures
            r.1@.len() == 36,
            r.0.sql@ == insert_text(table@, payload@),
            args_view(r.0.args@) == insert_args(r.1@, actor_id@, payload@),
    {
        let new_id = crate::ids::new_uuid();
        let mut cols: Vec<String> = Vec::new();
        let mut args: Vec<ArgValue> = Vec::new();
        cols.push("id".to_owned());
        cols.push("created_by".to_owned());
        cols.push("updated_by".to_owned());
        args.push(ArgValue::Identifier(new_id.clone()));
        args.push(ArgValue::Identifier(actor_id.to_owned()));
        args.push(ArgValue::Identifier(actor_id.to_owned()));
        let ghost head_keys = seq!["id"@, "created_by"@, "updated_by"@];
        let ghost head_args = seq![
            ArgValueView::Identifier(new_id@),
            ArgValueView::Identifier(actor_id@),
            ArgValueView::Identifier(actor_id@),
        ];
        let ghost es = payload@;
        proof {
            assert(strs(cols@) =~= head_keys);
            assert(args_view(args@) =~= head_args);
            assert(es.skip(0) =~= es);
        }
        let mut i: usize = 0;
        while i < payload.len()
            invariant
                i <= payload.len(),
                es == payload@,
                head_keys + retained_keys(es) =~= strs(cols@) + retained_keys(es.skip(i as int)),
                head_args + retained_args(es) =~= args_view(args@) + retained_args(
                    es.skip(i as int),
                ),
            decreases payload.len() - i,
        {
            let ghost rest = es.skip(i as int);
            proof {
                assert(rest[0] == es[i as int]);
                assert(rest.drop_first() =~= es.skip(i as int + 1));
            }
            let e = &payload[i];
            if !system_column(e.0.as_str()) {
                let ghost pre_cols = cols@;
                let ghost pre_args = args@;
                cols.push(e.0.clone());
                args.push(crate::values::scalar_to_arg(&e.1));
                proof {
                    crate::strutil::lemma_strs_push(pre_cols, cols@.last());
                    crate::values::lemma_args_view_push(pre_args, args@.last());
                    assert(retained_keys(rest) == seq![rest[0].0@] + retained_keys(
                        rest.drop_first(),
                    ));
                    assert(retained_args(rest) == seq![arg_of_scalar(rest[0].1)] + retained_args(
                        rest.drop_first(),
                    ));
                    assert(head_keys + retained_keys(es) =~= strs(cols@) + retained_keys(
                        es.skip(i as int + 1),
                    ));
                    assert(head_args + retained_args(es) =~= args_view(args@) + retained_args(
                        es.skip(i as int + 1),
                    ));
                }
            } else {
                proof {
                    assert(retained_keys(rest) == retained_keys(rest.drop_first()));
                    assert(retained_args(rest) == retained_args(rest.drop_first()));
                }
            }
            i = i + 1;
        }
        proof {
            assert(es.skip(payload@.len() as int) =~= Seq::<(String, JsonScalar)>::empty());
            assert(strs(cols@) =~= head_keys + retained_keys(es));
            assert(args_view(args@) =~= head_args + retained_args(es));
        }
        let mut phs: Vec<String> = Vec::new();
        let mut k: usize = 0;
        while k < cols.len()
            invariant
                k <= cols.len(),
                strs(phs@) =~= placeholders(cols@.len() as nat).take(k as int),
            decreases cols.len() - k,
        {
            let ghost pre = phs@;
            let n = crate::strutil::u64_to_string((k as u64) + 1);
            phs.push(String::from_str("$").concat(n.as_str()));
            proof {
                crate::strutil::lemma_strs_push(pre, phs@.last());
                assert(phs@.last()@ =~= "$"@ + dec_str((k + 1) as nat));
                assert(strs(phs@) =~= placeholders(cols@.len() as nat).take(k as int + 1));
            }
            k = k + 1;
        }
        proof {
            assert(placeholders(cols@.len() as nat).take(cols@.len() as int) =~= placeholders(
                cols@.len() as nat,
            ));
        }
        let mut sql = String::from_str("INSERT INTO ");
        sql.append(table);
        sql.append(" (");
        let cols_joined = crate::strutil::join_strings(&cols, ", ");
        sql.append(cols_joined.as_str());
        sql.append(") VALUES (");
        let phs_joined = crate::strutil::join_strings(&phs, ", ");
        sql.append(phs_joined.as_str());
        sql.append(") RETURNING *");
        proof {
            assert(cols@.len() == 3 + retained_keys(es).len());
            assert(sql@ =~= insert_text(table@, es));
        }
        (Statement { sql, args }, new_id)
    }

    /// The UPDATE of an update: caller input is flattened to entries and
    /// stripped of the system columns; where nothing remains the request
    /// fails fast with `BadRequest` and no statement exists to run, else
    /// the audit columns are forced and the row is picked by identifier.
    pub fn update(table: &str, id: &str, payload: &Vec<(String, JsonScalar)>, actor_id: &str) -> (r:
        Result<Statement, AppError>)
        ensures
            r is Err <==> retained_keys(payload@).len() == 0,
            r matches Err(e) ==> e matches AppError::BadRequest(m) && m@
                == "No fields to update"@,
            r matches Ok(st) ==> st.sql@ == update_text(table@, payload@) && args_view(st.args@)
                == update_args(actor_id@, id@, payload@),
    {
        let mut set: Vec<String> = Vec::new();
        let mut args: Vec<ArgValue> = Vec::new();
        set.push("updated_by = $1".to_owned());
        set.push("updated_at = NOW()".to_owned());
        args.push(ArgValue::Identifier(actor_id.to_owned()));
        let ghost head_set = seq!["updated_by = $1"@, "updated_at = NOW()"@];
        let ghost head_args = seq![ArgValueView::Identifier(actor_id@)];
        let ghost es = payload@;
        proof {
            assert(strs(set@) =~= head_set);
            assert(args_view(args@) =~= head_args);
            assert(es.skip(0) =~= es);
            lemma_retained_counts(es, 2);
        }
        let mut i: usize = 0;
        while i < payload.len()
            invariant
                i <= payload.len(),
                es == payload@,
                set@.len() == args@.len() + 1,
                set@.len() >= 2,
                head_set + update_set_from(es, 2) =~= strs(set@) + update_set_from(
                    es.skip(i as int),
                    set@.len() as int,
                ),
                head_args + retained_args(es) =~= args_view(args@) + retained_args(
                    es.skip(i as int),
                ),
            decreases payload.len() - i,
        {
            let ghost rest = es.skip(i as int);
            proof {
                assert(rest[0] == es[i as int]);
                assert(rest.drop_first() =~= es.skip(i as int + 1));
            }
            let e = &payload[i];
            if !system_column(e.0.as_str()) {
                let ghost pre_set = set@;
                let ghost pre_args = args@;
                let n = crate::strutil::u64_to_string(set.len() as u64);
                let clause = e.0.clone().concat(" = $").concat(n.as_str());
                args.push(crate::values::scalar_to_arg(&e.1));
                set.push(clause);
                proof {
                    crate::strutil::lemma_strs_push(pre_set, set@.last());
                    crate::values::lemma_args_view_push(pre_args, args@.last());
                    assert(set@.last()@ =~= rest[0].0@ + " = $"@ + dec_str(pre_set.len() as nat));
                    assert(update_set_from(rest, pre_set.len() as int) == seq![
                        rest[0].0@ + " = $"@ + dec_str(pre_set.len() as nat),
                    ] + update_set_from(rest.drop_first(), pre_set.len() as int + 1));
                    assert(retained_args(rest) == seq![arg_of_scalar(rest[0].1)] + retained_args(
                        rest.drop_first(),
                    ));
                    assert(head_set + update_set_from(es, 2) =~= strs(set@) + update_set_from(
                        es.skip(i as int + 1),
                        set@.len() as int,
                    ));
                    assert(head_args + retained_args(es) =~= args_view(args@) + retained_args(
                        es.skip(i as int + 1),
                    ));
                }
            } else {
                proof {
                    assert(update_set_from(rest, set@.len() as int) == update_set_from(
                        rest.drop_first(),
                        set@.len() as int,
                    ));
                    assert(retained_args(rest) == retained_args(rest.drop_first()));
                }
            }
            i = i + 1;
        }
        proof {
            assert(es.skip(payload@.len() as int) =~= Seq::<(String, JsonScalar)>::empty());
            assert(strs(set@) =~= head_set + update_set_from(es, 2));
            assert(args_view(args@) =~= head_args + retained_args(es));
        }
        if set.len() == 2 {
            return Err(AppError::BadRequest("No fields to update".to_owned()));
        }
        let ghost pre_args = args@;
        args.push(ArgValue::Identifier(id.to_owned()));
        let n = crate::strutil::u64_to_string(args.len() as u64);
        let mut sql = String::from_str("UPDATE ");
        sql.append(table);
        sql.append(" SET ");
        let set_joined = crate::strutil::join_strings(&set, ", ");
        sql.append(set_joined.as_str());
        sql.append(" WHERE id = $");
        sql.append(n.as_str());
        sql.append(" RETURNING *");
        proof {
            crate::values::lemma_args_view_push(pre_args, args@.last());
            assert(sql@ =~= update_text(table@, es));
            assert(args_view(args@) =~= update_args(actor_id@, id@, es));
        }
        Ok(Statement { sql, args })
    }

    /// The DELETE of a delete, the row picked by identifier.
    pub fn delete(table: &str, id: &str) -> (r: Statement)
        ensures
            r.sql@ == "DELETE FROM "@ + table@ + " WHERE id = $1"@,
            args_view(r.args@) == seq![ArgValueView::Identifier(id@)],
    {
        let mut sql = String::from_str("DELETE FROM ");
        sql.append(table);
        sql.append(" WHERE id = $1");
        let mut args: Vec<ArgValue> = Vec::new();
        args.push(ArgValue::Identifier(id.to_owned()));
        proof {
            assert(args_view(args@) =~= seq![ArgValueView::Identifier(id@)]);
        }
        Statement { sql, args }
    }

    /// What a delete's outcome means: no row touched is `NotFound`, else
    /// done, with nothing to return.
    pub fn delete_outcome(rows_affected: u64, entity: &str, id: &str) -> (r: Result<
        (),
        AppError,
    >)
        ensures
            r is Err <==> rows_affected == 0,
            r matches Err(e) ==> e matches AppError::NotFound { entity: en, id: i } && en@
                == entity@ && i@ == id@,
    {
        if rows_affected == 0 {
            Err(AppError::NotFound { entity: entity.to_owned(), id: id.to_owned() })
        } else {
            Ok(())
        }
    }

    /// The point SELECT of a read by identifier.
    pub fn get_by_id(table: &str, select_fields: &Vec<String>, joins: &Vec<String>, id: &str) -> (r:
        Statement)
        ensures
            r.sql@ == "SELECT "@ + join_strs(strs(select_fields@), ", "@) + " FROM "@ + table@
                + " "@ + join_strs(strs(joins@), " "@) + " WHERE "@ + table@ + ".id = $1"@,
            args_view(r.args@) == seq![ArgValueView::Identifier(id@)],
    {
        let mut sql = String::from_str("SELECT ");
        let sel = crate::strutil::join_strings(select_fields, ", ");
        sql.append(sel.as_str());
        sql.append(" FROM ");
        sql.append(table);
        sql.append(" ");
        let joined = crate::strutil::join_strings(joins, " ");
        sql.append(joined.as_str());
        sql.append(" WHERE ");
        sql.append(table);
        sql.append(".id = $1");
        let mut args: Vec<ArgValue> = Vec::new();
        args.push(ArgValue::Identifier(id.to_owned()));
        proof {
            assert(args_view(args@) =~= seq![ArgValueView::Identifier(id@)]);
        }
        Statement { sql, args }
    }
}

} // verus!

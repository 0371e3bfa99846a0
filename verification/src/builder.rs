//! The query builder: per-resource configuration (table, whitelists, joins,
//! include relations) and the assembly of the row and count statements.
//!
//! Field names reach SQL text only after a whitelist check; values never do —
//! they bind through positional placeholders, collected beside the text.

use vstd::prelude::*;
use vstd::string::StringExecFns;
use crate::params::QueryParams;
use crate::strutil::{contains_str, dec_str, strs};
use crate::values::{args_view, ArgValue, ArgValueView, JsonScalar};

verus! {

/// An optional named join: its clause and the columns it adds to the
/// projection when activated.
#[derive(Debug, Clone)]
pub struct IncludeConfig {
    pub join_clause: String,
    pub select_fields: Vec<String>,
}

/// Static per-resource configuration: where rows live, which columns may be
/// selected, searched, filtered and sorted, and which joins exist.
#[derive(Debug)]
pub struct QueryBuilder {
    pub table: String,
    pub select_fields: Vec<String>,
    pub search_fields: Vec<String>,
    pub filterable_fields: Vec<String>,
    pub sortable_fields: Vec<String>,
    pub joins: Vec<String>,
    pub include_relations: Vec<(String, IncludeConfig)>,
}

/// The views of a sequence of borrowed strings.
pub open spec fn strs_ref(v: Seq<&str>) -> Seq<Seq<char>> {
    v.map_values(|s: &str| s@)
}

/// The configuration registered under `name`, the most recent registration
/// winning.
pub open spec fn include_of(rels: Seq<(String, IncludeConfig)>, name: Seq<char>) -> Option<
    IncludeConfig,
>
    decreases rels.len(),
{
    if rels.len() == 0 {
        None
    } else if rels[0].0@ == name {
        Some(rels[0].1)
    } else {
        include_of(rels.drop_first(), name)
    }
}

fn copy_strs(fields: Vec<&str>) -> (r: Vec<String>)
    ensures
        strs(r@) == strs_ref(fields@),
{
    let mut out: Vec<String> = Vec::new();
    let mut i: usize = 0;
    while i < fields.len()
        invariant
            i <= fields.len(),
            strs(out@) =~= strs_ref(fields@).take(i as int),
        decreases fields.len() - i,
    {
        let ghost pre = out@;
        out.push(fields[i].to_owned());
        proof {
            assert(strs(pre).len() == pre.len());
            assert(pre.len() == i as int);
            assert(out@ == pre.push(out@.last()));
            assert(out@.len() == i + 1);
            assert forall|k: int| 0 <= k < out@.len() implies strs(out@)[k] == strs_ref(
                fields@,
            ).take(i as int + 1)[k] by {
                if k < i as int {
                    assert(strs(pre)[k] == strs_ref(fields@).take(i as int)[k]);
                    assert(out@[k] == pre[k]);
                    assert(strs(out@)[k] == out@[k]@);
                } else {
                    assert(strs(out@)[k] == out@[k]@);
                    assert(strs_ref(fields@)[k] == fields@[k]@);
                }
            }
            assert(strs(out@) =~= strs_ref(fields@).take(i as int + 1));
        }
        i = i + 1;
    }
    proof {
        assert(strs_ref(fields@).take(fields@.len() as int) =~= strs_ref(fields@));
    }
    out
}

impl QueryBuilder {
    /// A builder over `table` that selects every column and allows nothing
    /// to be searched, filtered or sorted until told otherwise.
    pub fn new(table: &str) -> (r: QueryBuilder)
        ensures
            r.table@ == table@,
            strs(r.select_fields@) =~= seq!["*"@],
            r.search_fields@.len() == 0,
            r.filterable_fields@.len() == 0,
            r.sortable_fields@.len() == 0,
            r.joins@.len() == 0,
            r.include_relations@.len() == 0,
    {
        let mut select_fields: Vec<String> = Vec::new();
        select_fields.push("*".to_owned());
        QueryBuilder {
            table: table.to_owned(),
            select_fields,
            search_fields: Vec::new(),
            filterable_fields: Vec::new(),
            sortable_fields: Vec::new(),
            joins: Vec::new(),
            include_relations: Vec::new(),
        }
    }

    /// Replaces the projection.
    pub fn select(self, fields: Vec<&str>) -> (r: QueryBuilder)
        ensures
            strs(r.select_fields@) == strs_ref(fields@),
            r.table == self.table,
            r.search_fields == self.search_fields,
            r.filterable_fields == self.filterable_fields,
            r.sortable_fields == self.sortable_fields,
            r.joins == self.joins,
            r.include_relations == self.include_relations,
    {
        QueryBuilder { select_fields: copy_strs(fields), ..self }
    }

    /// Replaces the whitelist of searchable columns.
    pub fn searchable(self, fields: Vec<&str>) -> (r: QueryBuilder)
        ensures
            strs(r.search_fields@) == strs_ref(fields@),
            r.table == self.table,
            r.select_fields == self.select_fields,
            r.filterable_fields == self.filterable_fields,
            r.sortable_fields == self.sortable_fields,
            r.joins == self.joins,
            r.include_relations == self.include_relations,
    {
        QueryBuilder { search_fields: copy_strs(fields), ..self }
    }

    /// Replaces the whitelist of filterable columns.
    pub fn filterable(self, fields: Vec<&str>) -> (r: QueryBuilder)
        ensures
            strs(r.filterable_fields@) == strs_ref(fields@),
            r.table == self.table,
            r.select_fields == self.select_fields,
            r.search_fields == self.search_fields,
            r.sortable_fields == self.sortable_fields,
            r.joins == self.joins,
            r.include_relations == self.include_relations,
    {
        QueryBuilder { filterable_fields: copy_strs(fields), ..self }
    }

    /// Replaces the whitelist of sortable columns.
    pub fn sortable(self, fields: Vec<&str>) -> (r: QueryBuilder)
        ensures
            strs(r.sortable_fields@) == strs_ref(fields@),
            r.table == self.table,
            r.select_fields == self.select_fields,
            r.search_fields == self.search_fields,
            r.filterable_fields == self.filterable_fields,
            r.joins == self.joins,
            r.include_relations == self.include_relations,
    {
        QueryBuilder { sortable_fields: copy_strs(fields), ..self }
    }

    /// Appends a static join clause, trusted author-supplied text.
    pub fn join(self, join_clause: &str) -> (r: QueryBuilder)
        ensures
            strs(r.joins@) == strs(self.joins@).push(join_clause@),
            r.table == self.table,
            r.select_fields == self.select_fields,
            r.search_fields == self.search_fields,
            r.filterable_fields == self.filterable_fields,
            r.sortable_fields == self.sortable_fields,
            r.include_relations == self.include_relations,
    {
        let mut joins = self.joins;
        joins.push(join_clause.to_owned());
        let r = QueryBuilder { joins, ..self };
        proof {
            assert(strs(r.joins@) =~= strs(self.joins@).push(join_clause@));
        }
        r
    }

    /// Registers an optional named relation; a request activates it by
    /// listing its name. Registering a name again replaces it.
    pub fn include_relation(self, name: &str, join_clause: &str, select_fields: Vec<&str>) -> (r:
        QueryBuilder)
        ensures
            include_of(r.include_relations@, name@) matches Some(c) && c.join_clause@
                == join_clause@ && strs(c.select_fields@) == strs_ref(select_fields@),
            forall|other: Seq<char>|
                other != name@ ==> include_of(r.include_relations@, other) == include_of(
                    self.include_relations@,
                    other,
                ),
            r.table == self.table,
            r.select_fields == self.select_fields,
            r.search_fields == self.search_fields,
            r.filterable_fields == self.filterable_fields,
            r.sortable_fields == self.sortable_fields,
            r.joins == self.joins,
    {
        let config = IncludeConfig {
            join_clause: join_clause.to_owned(),
            select_fields: copy_strs(select_fields),
        };
        let mut include_relations = self.include_relations;
        include_relations.insert(0, (name.to_owned(), config));
        let r = QueryBuilder { include_relations, ..self };
        proof {
            assert(r.include_relations@.drop_first() =~= self.include_relations@);
        }
        r
    }
}

// ----- the search predicate -----

/// The search term in force: `search_value` where given, else `search`.
pub open spec fn effective_term(p: QueryParams) -> Option<Seq<char>> {
    match p.search_value {
        Some(v) => Some(v@),
        None => match p.search {
            Some(s) => Some(s@),
            None => None,
        },
    }
}

/// The members of `names` that the whitelist holds, in request order,
/// duplicates kept.
pub open spec fn valid_fields(whitelist: Seq<String>, names: Seq<Seq<char>>) -> Seq<Seq<char>>
    decreases names.len(),
{
    if names.len() == 0 {
        Seq::<Seq<char>>::empty()
    } else if contains_str(whitelist, names[0]) {
        seq![names[0]] + valid_fields(whitelist, names.drop_first())
    } else {
        valid_fields(whitelist, names.drop_first())
    }
}

/// The columns a search looks in: an explicit `search_fields` list is
/// intersected with the whitelist, silently dropping the rest; without one
/// the whole whitelist is searched.
pub open spec fn selected_search_fields(qb: QueryBuilder, p: QueryParams) -> Seq<Seq<char>> {
    match p.search_fields {
        Some(list) => valid_fields(qb.search_fields@, crate::strutil::split_trim(list@)),
        None => strs(qb.search_fields@),
    }
}

/// Whether this request adds a search predicate at all: a non-empty term
/// and at least one surviving search column.
pub open spec fn has_search(qb: QueryBuilder, p: QueryParams) -> bool {
    &&& effective_term(p) matches Some(t) && t.len() > 0
    &&& selected_search_fields(qb, p).len() > 0
}

/// The substring pattern bound for a search term.
pub open spec fn pattern_of(t: Seq<char>) -> Seq<char> {
    "%"@ + t + "%"@
}

/// The null-safe, case-insensitive substring test on one column, bound at
/// placeholder `n`.
pub open spec fn search_cond(f: Seq<char>, n: int) -> Seq<char> {
    "("@ + f + " IS NOT NULL AND "@ + f + " ILIKE $"@ + dec_str(n as nat) + ")"@
}

/// The whole search predicate: one condition per column, any of which may
/// hit. Search placeholders always come first, numbered from 1.
pub open spec fn search_group_text(fields: Seq<Seq<char>>) -> Seq<char> {
    "("@ + crate::strutil::join_strs(
        Seq::new(fields.len(), |i: int| search_cond(fields[i], 1 + i)),
        " OR "@,
    ) + ")"@
}

/// The predicate groups the search contributes: one or none.
pub open spec fn search_groups(qb: QueryBuilder, p: QueryParams) -> Seq<Seq<char>> {
    if has_search(qb, p) {
        seq![search_group_text(selected_search_fields(qb, p))]
    } else {
        Seq::<Seq<char>>::empty()
    }
}

/// The parameters the search binds: the same pattern once per column.
pub open spec fn search_args(qb: QueryBuilder, p: QueryParams) -> Seq<ArgValueView> {
    if has_search(qb, p) {
        Seq::new(
            selected_search_fields(qb, p).len(),
            |i: int| ArgValueView::Text(pattern_of(effective_term(p).unwrap())),
        )
    } else {
        Seq::<ArgValueView>::empty()
    }
}

// ----- the filter predicate -----

/// The entries of the filter object: empty where none was given or the
/// text is not a JSON object.
pub open spec fn filter_entries(p: QueryParams) -> Seq<(String, JsonScalar)> {
    match p.filter {
        Some(f) => match crate::values::json_object_entries(f@) {
            Some(e) => e,
            None => Seq::<(String, JsonScalar)>::empty(),
        },
        None => Seq::<(String, JsonScalar)>::empty(),
    }
}

/// Whether a filter value has a kind an equality predicate can bind.
pub open spec fn filter_value_ok(v: JsonScalar) -> bool {
    match v {
        JsonScalar::Text(_) => true,
        JsonScalar::Integer(_) => true,
        JsonScalar::Decimal(_) => true,
        JsonScalar::Boolean(_) => true,
        JsonScalar::Null => false,
        JsonScalar::Composite(_) => false,
    }
}

/// Whether a filter entry takes part: its key whitelisted and its value of
/// a bindable kind; anything else is dropped, never an error.
pub open spec fn filter_accepted(filterable: Seq<String>, e: (String, JsonScalar)) -> bool {
    contains_str(filterable, e.0@) && filter_value_ok(e.1)
}

/// One equality predicate, bound at placeholder `n`.
pub open spec fn filter_cond(key: Seq<char>, n: int) -> Seq<char> {
    key + " = $"@ + dec_str(n as nat)
}

/// The equality predicates of the accepted filter entries, numbering
/// placeholders from `n` in entry order.
pub open spec fn filter_groups_from(
    filterable: Seq<String>,
    entries: Seq<(String, JsonScalar)>,
    n: int,
) -> Seq<Seq<char>>
    decreases entries.len(),
{
    if entries.len() == 0 {
        Seq::<Seq<char>>::empty()
    } else if filter_accepted(filterable, entries[0]) {
        seq![filter_cond(entries[0].0@, n)] + filter_groups_from(
            filterable,
            entries.drop_first(),
            n + 1,
        )
    } else {
        filter_groups_from(filterable, entries.drop_first(), n)
    }
}

/// The values the accepted filter entries bind, in entry order.
pub open spec fn filter_args(
    filterable: Seq<String>,
    entries: Seq<(String, JsonScalar)>,
) -> Seq<ArgValueView>
    decreases entries.len(),
{
    if entries.len() == 0 {
        Seq::<ArgValueView>::empty()
    } else if filter_accepted(filterable, entries[0]) {
        seq![crate::values::arg_of_scalar(entries[0].1)] + filter_args(
            filterable,
            entries.drop_first(),
        )
    } else {
        filter_args(filterable, entries.drop_first())
    }
}

// ----- the combined predicate -----

/// Every predicate group of the request, search first, then the filters.
pub open spec fn condition_groups(qb: QueryBuilder, p: QueryParams) -> Seq<Seq<char>> {
    search_groups(qb, p) + filter_groups_from(
        qb.filterable_fields@,
        filter_entries(p),
        1 + search_args(qb, p).len() as int,
    )
}

/// Every value the predicates bind, in placeholder order.
pub open spec fn condition_args(qb: QueryBuilder, p: QueryParams) -> Seq<ArgValueView> {
    search_args(qb, p) + filter_args(qb.filterable_fields@, filter_entries(p))
}

/// The WHERE clause both statements share: empty without predicates, else
/// the groups joined by AND.
pub open spec fn where_clause(qb: QueryBuilder, p: QueryParams) -> Seq<char> {
    if condition_groups(qb, p).len() == 0 {
        Seq::<char>::empty()
    } else {
        " WHERE "@ + crate::strutil::join_strs(condition_groups(qb, p), " AND "@)
    }
}

/// The members of `names` that the whitelist holds, in order.
fn filtered_valid(whitelist: &Vec<String>, names: &Vec<String>) -> (r: Vec<String>)
    ensures
        strs(r@) == valid_fields(whitelist@, strs(names@)),
{
    let ghost all = strs(names@);
    let mut out: Vec<String> = Vec::new();
    let mut i: usize = 0;
    proof {
        assert(all.skip(0) =~= all);
    }
    while i < names.len()
        invariant
            i <= names.len(),
            all == strs(names@),
            valid_fields(whitelist@, all) =~= strs(out@) + valid_fields(
                whitelist@,
                all.skip(i as int),
            ),
        decreases names.len() - i,
    {
        let ghost rest = all.skip(i as int);
        proof {
            assert(rest[0] == names@[i as int]@);
            assert(rest.drop_first() =~= all.skip(i as int + 1));
        }
        if crate::strutil::vec_contains_str(whitelist, names[i].as_str()) {
            let ghost pre = out@;
            out.push(names[i].clone());
            proof {
                crate::strutil::lemma_strs_push(pre, out@.last());
                assert(valid_fields(whitelist@, rest) == seq![rest[0]] + valid_fields(
                    whitelist@,
                    rest.drop_first(),
                ));
                assert(valid_fields(whitelist@, all) =~= strs(out@) + valid_fields(
                    whitelist@,
                    all.skip(i as int + 1),
                ));
            }
        } else {
            proof {
                assert(valid_fields(whitelist@, rest) == valid_fields(
                    whitelist@,
                    rest.drop_first(),
                ));
            }
        }
        i = i + 1;
    }
    proof {
        assert(all.skip(names@.len() as int) =~= Seq::<Seq<char>>::empty());
        assert(strs(out@) =~= valid_fields(whitelist@, all));
    }
    out
}

impl QueryBuilder {
    /// Builds every boolean predicate of a request and the values they
    /// bind, in placeholder order: the search group first, then one
    /// equality per accepted filter entry. Both the row statement and the
    /// count statement consume exactly this output, so the two can never
    /// disagree on the set of rows they describe.
    pub fn build_conditions(&self, params: &QueryParams) -> (r: (Vec<String>, Vec<ArgValue>))
        ensures
            strs(r.0@) == condition_groups(*self, *params),
            args_view(r.1@) == condition_args(*self, *params),
    {
        let mut groups: Vec<String> = Vec::new();
        let mut args: Vec<ArgValue> = Vec::new();

        let term: Option<&String> = match &params.search_value {
            Some(v) => Some(v),
            None => match &params.search {
                Some(s) => Some(s),
                None => None,
            },
        };
        if let Some(t) = term {
            if !t.as_str().is_empty() {
                let fields: Vec<String> = match &params.search_fields {
                    Some(list) => {
                        let names = crate::strutil::split_trim_commas(list.as_str());
                        filtered_valid(&self.search_fields, &names)
                    },
                    None => crate::strutil::copy_strings(&self.search_fields),
                };
                proof {
                    assert(strs(fields@) == selected_search_fields(*self, *params));
                }
                if fields.len() > 0 {
                    let pattern = String::from_str("%").concat(t.as_str()).concat("%");
                    proof {
                        assert(pattern@ =~= pattern_of(effective_term(*params).unwrap()));
                    }
                    let mut conds: Vec<String> = Vec::new();
                    let mut i: usize = 0;
                    while i < fields.len()
                        invariant
                            i <= fields.len(),
                            args@.len() == i,
                            pattern@ == pattern_of(effective_term(*params).unwrap()),
                            strs(conds@) =~= Seq::new(
                                i as nat,
                                |k: int| search_cond(strs(fields@)[k], 1 + k),
                            ),
                            args_view(args@) =~= Seq::new(
                                i as nat,
                                |k: int| ArgValueView::Text(pattern@),
                            ),
                        decreases fields.len() - i,
                    {
                        let ghost pre_args = args@;
                        let ghost pre_conds = conds@;
                        args.push(ArgValue::Text(pattern.clone()));
                        let n = crate::strutil::u64_to_string(args.len() as u64);
                        let c = String::from_str("(")
                            .concat(fields[i].as_str())
                            .concat(" IS NOT NULL AND ")
                            .concat(fields[i].as_str())
                            .concat(" ILIKE $")
                            .concat(n.as_str())
                            .concat(")");
                        proof {
                            crate::values::lemma_args_view_push(pre_args, args@.last());
                            assert(c@ =~= search_cond(strs(fields@)[i as int], 1 + i as int));
                        }
                        conds.push(c);
                        proof {
                            crate::strutil::lemma_strs_push(pre_conds, conds@.last());
                            assert(strs(conds@) =~= Seq::new(
                                (i + 1) as nat,
                                |k: int| search_cond(strs(fields@)[k], 1 + k),
                            ));
                            assert(args_view(args@) =~= Seq::new(
                                (i + 1) as nat,
                                |k: int| ArgValueView::Text(pattern@),
                            ));
                        }
                        i = i + 1;
                    }
                    let joined = crate::strutil::join_strings(&conds, " OR ");
                    let g = String::from_str("(").concat(joined.as_str()).concat(")");
                    proof {
                        assert(g@ =~= search_group_text(strs(fields@)));
                        crate::strutil::lemma_strs_push(Seq::<String>::empty(), g);
                    }
                    groups.push(g);
                }
            }
        }
        proof {
            assert(strs(groups@) =~= search_groups(*self, *params));
            assert(args_view(args@) =~= search_args(*self, *params));
        }

        let ghost base_groups = groups@;
        let ghost base_args = args@;
        if let Some(f) = &params.filter {
            let parsed = crate::values::parse_json_object(f.as_str());
            match parsed {
                None => {},
                Some(entries) => {
                    let ghost fl = self.filterable_fields@;
                    let ghost es = entries@;
                    let mut i: usize = 0;
                    proof {
                        assert(es.skip(0) =~= es);
                    }
                    while i < entries.len()
                        invariant
                            i <= entries.len(),
                            es == entries@,
                            fl == self.filterable_fields@,
                            args@.len() >= base_args.len(),
                            strs(base_groups) + filter_groups_from(
                                fl,
                                es,
                                base_args.len() as int + 1,
                            ) =~= strs(groups@) + filter_groups_from(
                                fl,
                                es.skip(i as int),
                                args@.len() as int + 1,
                            ),
                            args_view(base_args) + filter_args(fl, es) =~= args_view(args@)
                                + filter_args(fl, es.skip(i as int)),
                        decreases entries.len() - i,
                    {
                        let ghost rest = es.skip(i as int);
                        proof {
                            assert(rest[0] == es[i as int]);
                            assert(rest.drop_first() =~= es.skip(i as int + 1));
                        }
                        let e = &entries[i];
                        let ok_kind = match &e.1 {
                            JsonScalar::Text(_) => true,
                            JsonScalar::Integer(_) => true,
                            JsonScalar::Decimal(_) => true,
                            JsonScalar::Boolean(_) => true,
                            JsonScalar::Null => false,
                            JsonScalar::Composite(_) => false,
                        };
                        if ok_kind && crate::strutil::vec_contains_str(
                            &self.filterable_fields,
                            e.0.as_str(),
                        ) {
                            let ghost pre_args = args@;
                            let ghost pre_groups = groups@;
                            args.push(crate::values::scalar_to_arg(&e.1));
                            let n = crate::strutil::u64_to_string(args.len() as u64);
                            let c = e.0.clone().concat(" = $").concat(n.as_str());
                            proof {
                                crate::values::lemma_args_view_push(pre_args, args@.last());
                                assert(filter_accepted(fl, rest[0]));
                                assert(c@ =~= filter_cond(rest[0].0@, pre_args.len() as int + 1));
                            }
                            groups.push(c);
                            proof {
                                crate::strutil::lemma_strs_push(pre_groups, groups@.last());
                                assert(filter_groups_from(fl, rest, pre_args.len() as int + 1)
                                    == seq![filter_cond(rest[0].0@, pre_args.len() as int + 1)]
                                    + filter_groups_from(
                                    fl,
                                    rest.drop_first(),
                                    pre_args.len() as int + 2,
                                ));
                                assert(filter_args(fl, rest) == seq![
                                    crate::values::arg_of_scalar(rest[0].1),
                                ] + filter_args(fl, rest.drop_first()));
                                assert(strs(base_groups) + filter_groups_from(
                                    fl,
                                    es,
                                    base_args.len() as int + 1,
                                ) =~= strs(groups@) + filter_groups_from(
                                    fl,
                                    es.skip(i as int + 1),
                                    args@.len() as int + 1,
                                ));
                                assert(args_view(base_args) + filter_args(fl, es) =~= args_view(
                                    args@,
                                ) + filter_args(fl, es.skip(i as int + 1)));
                            }
                        } else {
                            proof {
                                assert(!filter_accepted(fl, rest[0]));
                                assert(filter_groups_from(fl, rest, args@.len() as int + 1)
                                    == filter_groups_from(
                                    fl,
                                    rest.drop_first(),
                                    args@.len() as int + 1,
                                ));
                                assert(filter_args(fl, rest) == filter_args(
                                    fl,
                                    rest.drop_first(),
                                ));
                            }
                        }
                        i = i + 1;
                    }
                    proof {
                        assert(es.skip(entries@.len() as int) =~= Seq::<
                            (String, JsonScalar),
                        >::empty());
                    }
                },
            }
        }
        proof {
            assert(strs(groups@) =~= condition_groups(*self, *params));
            assert(args_view(args@) =~= condition_args(*self, *params));
        }
        (groups, args)
    }
}

// ----- sorting -----

/// An ASCII capital folded to its small form; anything else unchanged.
pub open spec fn ascii_lower_char(c: char) -> char {
    if 'A' <= c && c <= 'Z' {
        ((c as u32) + 32) as char
    } else {
        c
    }
}

/// `s` with every ASCII capital folded.
pub open spec fn lower_ascii(s: Seq<char>) -> Seq<char> {
    s.map_values(|c: char| ascii_lower_char(c))
}

/// The column a request asks to sort by, `created_at` where it names none.
pub open spec fn sort_key(p: QueryParams) -> Seq<char> {
    match p.sort_by {
        Some(s) => s@,
        None => "created_at"@,
    }
}

/// The direction a request asks for, `desc` where it names none.
pub open spec fn sort_dir(p: QueryParams) -> Seq<char> {
    match p.sort_order {
        Some(s) => s@,
        None => "desc"@,
    }
}

/// The ORDER BY clause: the requested column where whitelisted, ascending
/// only where the direction reads `asc` in any casing; any column not
/// whitelisted falls back to newest-first without failing the request.
pub open spec fn order_clause(qb: QueryBuilder, p: QueryParams) -> Seq<char> {
    if contains_str(qb.sortable_fields@, sort_key(p)) {
        " ORDER BY "@ + sort_key(p) + " "@ + (if lower_ascii(sort_dir(p)) == "asc"@ {
            "ASC"@
        } else {
            "DESC"@
        })
    } else {
        " ORDER BY created_at DESC"@
    }
}

/// Whether `s` reads `asc` up to ASCII casing.
fn is_asc_str(s: &str) -> (r: bool)
    ensures
        r == (lower_ascii(s@) == "asc"@),
{
    proof {
        reveal_strlit("asc");
    }
    let len = s.unicode_len();
    if len != 3 {
        proof {
            assert(lower_ascii(s@).len() == s@.len());
        }
        return false;
    }
    let c0 = s.get_char(0);
    let c1 = s.get_char(1);
    let c2 = s.get_char(2);
    let r = (c0 == 'a' || c0 == 'A') && (c1 == 's' || c1 == 'S') && (c2 == 'c' || c2 == 'C');
    proof {
        assert(ascii_lower_char('A') == 'a');
        assert(ascii_lower_char('S') == 's');
        assert(ascii_lower_char('C') == 'c');
        if r {
            assert(lower_ascii(s@) =~= "asc"@);
        } else {
            assert(lower_ascii(s@)[0] == ascii_lower_char(c0));
            assert(lower_ascii(s@)[1] == ascii_lower_char(c1));
            assert(lower_ascii(s@)[2] == ascii_lower_char(c2));
        }
    }
    r
}

// ----- include resolution and final assembly -----

/// The relation names a request activates, in request order.
pub open spec fn requested_includes(p: QueryParams) -> Seq<Seq<char>> {
    match p.includes {
        Some(s) => crate::strutil::split_trim(s@),
        None => Seq::<Seq<char>>::empty(),
    }
}

/// The join clauses of the activated relations that exist, in request
/// order; unknown names are silently dropped.
pub open spec fn resolve_join_clauses(
    rels: Seq<(String, IncludeConfig)>,
    names: Seq<Seq<char>>,
) -> Seq<Seq<char>>
    decreases names.len(),
{
    if names.len() == 0 {
        Seq::<Seq<char>>::empty()
    } else {
        (match include_of(rels, names[0]) {
            Some(c) => seq![c.join_clause@],
            None => Seq::<Seq<char>>::empty(),
        }) + resolve_join_clauses(rels, names.drop_first())
    }
}

/// The columns the activated relations add to the projection, each batch
/// led by a comma.
pub open spec fn extra_cols_text(
    rels: Seq<(String, IncludeConfig)>,
    names: Seq<Seq<char>>,
) -> Seq<char>
    decreases names.len(),
{
    if names.len() == 0 {
        Seq::<char>::empty()
    } else {
        (match include_of(rels, names[0]) {
            Some(c) => if c.select_fields@.len() > 0 {
                ", "@ + crate::strutil::join_strs(strs(c.select_fields@), ", "@)
            } else {
                Seq::<char>::empty()
            },
            None => Seq::<char>::empty(),
        }) + extra_cols_text(rels, names.drop_first())
    }
}

/// Whether the projection is "all columns", which no include may extend.
pub open spec fn star_select(qb: QueryBuilder) -> bool {
    contains_str(qb.select_fields@, "*"@)
}

/// The projection: the configured columns, extended by the activated
/// relations' columns unless everything is selected anyway.
pub open spec fn select_clause(qb: QueryBuilder, p: QueryParams) -> Seq<char> {
    crate::strutil::join_strs(strs(qb.select_fields@), ", "@) + (if star_select(qb) {
        Seq::<char>::empty()
    } else {
        extra_cols_text(qb.include_relations@, requested_includes(p))
    })
}

/// Clauses appended one after another, each led by a space.
pub open spec fn space_join(parts: Seq<Seq<char>>) -> Seq<char>
    decreases parts.len(),
{
    if parts.len() == 0 {
        Seq::<char>::empty()
    } else {
        space_join(parts.drop_last()) + " "@ + parts.last()
    }
}

/// Everything both statements put after the table name's joins: the static
/// joins, then the activated relations' joins.
pub open spec fn from_joins_text(qb: QueryBuilder, p: QueryParams) -> Seq<char> {
    space_join(strs(qb.joins@)) + space_join(
        resolve_join_clauses(qb.include_relations@, requested_includes(p)),
    )
}

/// The full row statement: projection, joins, the shared predicates, the
/// order, and the two paging placeholders after every condition's.
pub open spec fn row_query_text(qb: QueryBuilder, p: QueryParams) -> Seq<char> {
    "SELECT "@ + select_clause(qb, p) + " FROM "@ + qb.table@ + from_joins_text(qb, p)
        + where_clause(qb, p) + order_clause(qb, p) + " LIMIT $"@ + dec_str(
        (condition_args(qb, p).len() + 1) as nat,
    ) + " OFFSET $"@ + dec_str((condition_args(qb, p).len() + 2) as nat)
}

/// The values the row statement binds: every condition's, then the page
/// size and the offset.
pub open spec fn row_query_args(qb: QueryBuilder, p: QueryParams) -> Seq<ArgValueView> {
    condition_args(qb, p) + seq![
        ArgValueView::Integer(crate::params::effective_per_page_spec(p) as i64),
        ArgValueView::Integer(
            ((crate::params::effective_page_spec(p) - 1) * crate::params::effective_per_page_spec(
                p,
            )) as i64,
        ),
    ]
}

/// The count statement: the same joins and the same predicates as the row
/// statement, nothing paged.
pub open spec fn count_query_text(qb: QueryBuilder, p: QueryParams) -> Seq<char> {
    "SELECT COUNT(*) as total FROM "@ + qb.table@ + from_joins_text(qb, p) + where_clause(qb, p)
}

// ----- laws -----

/// The filter entries whose key the whitelist holds, in order.
pub open spec fn listed_entries(
    filterable: Seq<String>,
    entries: Seq<(String, JsonScalar)>,
) -> Seq<(String, JsonScalar)>
    decreases entries.len(),
{
    if entries.len() == 0 {
        Seq::<(String, JsonScalar)>::empty()
    } else if contains_str(filterable, entries[0].0@) {
        seq![entries[0]] + listed_entries(filterable, entries.drop_first())
    } else {
        listed_entries(filterable, entries.drop_first())
    }
}

/// Filtering on a field the whitelist does not hold adds no predicate and
/// binds no value: the request yields exactly the predicates it would with
/// that field omitted, and no error.
pub proof fn lemma_filter_ignores_unlisted(
    filterable: Seq<String>,
    entries: Seq<(String, JsonScalar)>,
    n: int,
)
    ensures
        filter_groups_from(filterable, listed_entries(filterable, entries), n)
            == filter_groups_from(filterable, entries, n),
        filter_args(filterable, listed_entries(filterable, entries)) == filter_args(
            filterable,
            entries,
        ),
    decreases entries.len(),
{
    if entries.len() > 0 {
        let rest = entries.drop_first();
        if contains_str(filterable, entries[0].0@) {
            let n_rest: int = if filter_accepted(filterable, entries[0]) {
                n + 1
            } else {
                n
            };
            lemma_filter_ignores_unlisted(filterable, rest, n_rest);
            let kept = seq![entries[0]] + listed_entries(filterable, rest);
            assert(kept[0] == entries[0]);
            assert(kept.drop_first() =~= listed_entries(filterable, rest));
        } else {
            lemma_filter_ignores_unlisted(filterable, rest, n);
        }
    }
}

/// A search-field list mixing whitelisted and unknown names selects exactly
/// the whitelisted ones: the request searches the same columns it would
/// with the unknown names left out.
pub proof fn lemma_search_valid_subset(whitelist: Seq<String>, names: Seq<Seq<char>>)
    ensures
        valid_fields(whitelist, valid_fields(whitelist, names)) == valid_fields(whitelist, names),
    decreases names.len(),
{
    if names.len() > 0 {
        lemma_search_valid_subset(whitelist, names.drop_first());
        if contains_str(whitelist, names[0]) {
            let kept = seq![names[0]] + valid_fields(whitelist, names.drop_first());
            assert(kept[0] == names[0]);
            assert(kept.drop_first() =~= valid_fields(whitelist, names.drop_first()));
        }
    }
}

/// A sort field outside the whitelist falls back to the default
/// newest-first order; nothing else of the statement changes and the
/// request is not rejected.
pub proof fn lemma_sort_fallback(qb: QueryBuilder, p: QueryParams)
    requires
        !contains_str(qb.sortable_fields@, sort_key(p)),
    ensures
        order_clause(qb, p) == " ORDER BY created_at DESC"@,
        row_query_text(qb, p) == "SELECT "@ + select_clause(qb, p) + " FROM "@ + qb.table@
            + from_joins_text(qb, p) + where_clause(qb, p) + " ORDER BY created_at DESC"@
            + " LIMIT $"@ + dec_str((condition_args(qb, p).len() + 1) as nat) + " OFFSET $"@
            + dec_str((condition_args(qb, p).len() + 2) as nat),
{
}

/// The row statement and the count statement are assembled around one
/// shared WHERE clause and one shared list of bound condition values, so
/// the total always describes exactly the filtered set being paged.
pub proof fn lemma_count_matches_rows(qb: QueryBuilder, p: QueryParams)
    ensures
        count_query_text(qb, p) == "SELECT COUNT(*) as total FROM "@ + qb.table@
            + from_joins_text(qb, p) + where_clause(qb, p),
        row_query_text(qb, p) == "SELECT "@ + select_clause(qb, p) + " FROM "@ + qb.table@
            + from_joins_text(qb, p) + where_clause(qb, p) + order_clause(qb, p) + " LIMIT $"@
            + dec_str((condition_args(qb, p).len() + 1) as nat) + " OFFSET $"@ + dec_str(
            (condition_args(qb, p).len() + 2) as nat,
        ),
        row_query_args(qb, p).take(condition_args(qb, p).len() as int) == condition_args(qb, p),
{
    assert(row_query_args(qb, p).take(condition_args(qb, p).len() as int) =~= condition_args(
        qb,
        p,
    ));
}

/// The index of the relation registered under `name`, if any.
fn find_include(rels: &Vec<(String, IncludeConfig)>, name: &str) -> (r: Option<usize>)
    ensures
        r matches Some(i) ==> i < rels@.len() && include_of(rels@, name@) == Some(
            rels@[i as int].1,
        ),
        r is None ==> include_of(rels@, name@) is None,
{
    let owned: String = name.to_owned();
    let mut i: usize = 0;
    proof {
        assert(rels@.skip(0) =~= rels@);
    }
    while i < rels.len()
        invariant
            owned@ == name@,
            i <= rels.len(),
            include_of(rels@, name@) == include_of(rels@.skip(i as int), name@),
        decreases rels.len() - i,
    {
        if rels[i].0 == owned {
            proof {
                assert(rels@.skip(i as int)[0] == rels@[i as int]);
            }
            return Some(i);
        }
        proof {
            assert(rels@.skip(i as int).drop_first() =~= rels@.skip(i + 1 as int));
        }
        i = i + 1;
    }
    proof {
        assert(rels@.skip(rels@.len() as int).len() == 0);
    }
    None
}

impl QueryBuilder {
    /// Resolves the activated relations: their join clauses in request
    /// order, and the text their columns add to the projection.
    fn resolve_includes(&self, params: &QueryParams) -> (r: (Vec<String>, String))
        ensures
            strs(r.0@) == resolve_join_clauses(
                self.include_relations@,
                requested_includes(*params),
            ),
            r.1@ == extra_cols_text(self.include_relations@, requested_includes(*params)),
    {
        let mut clauses: Vec<String> = Vec::new();
        let mut extras = String::new();
        if let Some(list) = &params.includes {
            let names = crate::strutil::split_trim_commas(list.as_str());
            let ghost all = strs(names@);
            let ghost rels = self.include_relations@;
            let mut i: usize = 0;
            proof {
                assert(all.skip(0) =~= all);
            }
            while i < names.len()
                invariant
                    i <= names.len(),
                    all == strs(names@),
                    rels == self.include_relations@,
                    resolve_join_clauses(rels, all) =~= strs(clauses@) + resolve_join_clauses(
                        rels,
                        all.skip(i as int),
                    ),
                    extra_cols_text(rels, all) =~= extras@ + extra_cols_text(
                        rels,
                        all.skip(i as int),
                    ),
                decreases names.len() - i,
            {
                let ghost rest = all.skip(i as int);
                proof {
                    assert(rest[0] == names@[i as int]@);
                    assert(rest.drop_first() =~= all.skip(i as int + 1));
                }
                match find_include(&self.include_relations, names[i].as_str()) {
                    Some(idx) => {
                        let cfg = &self.include_relations[idx].1;
                        let ghost pre = clauses@;
                        clauses.push(cfg.join_clause.clone());
                        if cfg.select_fields.len() > 0 {
                            extras.append(", ");
                            let cols = crate::strutil::join_strings(&cfg.select_fields, ", ");
                            extras.append(cols.as_str());
                        }
                        proof {
                            crate::strutil::lemma_strs_push(pre, clauses@.last());
                            assert(resolve_join_clauses(rels, rest) == seq![cfg.join_clause@]
                                + resolve_join_clauses(rels, rest.drop_first()));
                            assert(resolve_join_clauses(rels, all) =~= strs(clauses@)
                                + resolve_join_clauses(rels, all.skip(i as int + 1)));
                            assert(extra_cols_text(rels, all) =~= extras@ + extra_cols_text(
                                rels,
                                all.skip(i as int + 1),
                            ));
                        }
                    },
                    None => {
                        proof {
                            assert(resolve_join_clauses(rels, rest) == resolve_join_clauses(
                                rels,
                                rest.drop_first(),
                            ));
                            assert(extra_cols_text(rels, rest) == extra_cols_text(
                                rels,
                                rest.drop_first(),
                            ));
                        }
                    },
                }
                i = i + 1;
            }
            proof {
                assert(all.skip(names@.len() as int) =~= Seq::<Seq<char>>::empty());
                assert(strs(clauses@) =~= resolve_join_clauses(rels, all));
                assert(extras@ =~= extra_cols_text(rels, all));
            }
        }
        (clauses, extras)
    }

    /// Appends each clause, led by a space.
    fn append_clauses(query: &mut String, clauses: &Vec<String>)
        ensures
            final(query)@ == old(query)@ + space_join(strs(clauses@)),
    {
        let mut i: usize = 0;
        while i < clauses.len()
            invariant
                i <= clauses.len(),
                query@ == old(query)@ + space_join(strs(clauses@).take(i as int)),
            decreases clauses.len() - i,
        {
            query.append(" ");
            query.append(clauses[i].as_str());
            proof {
                let done = strs(clauses@).take(i as int + 1);
                assert(done.drop_last() =~= strs(clauses@).take(i as int));
                assert(done.last() == clauses@[i as int]@);
                assert(query@ =~= old(query)@ + space_join(done));
            }
            i = i + 1;
        }
        proof {
            assert(strs(clauses@).take(clauses@.len() as int) =~= strs(clauses@));
        }
    }

    /// Builds the row statement of a request: SELECT with joins, the shared
    /// WHERE, ORDER BY under the sort whitelist, and LIMIT/OFFSET bound as
    /// the two final parameters. Returns the statement text, its parameters
    /// in placeholder order, and the effective page and page size.
    pub fn build_query(&self, params: &QueryParams) -> (r: (String, Vec<ArgValue>, u32, u32))
        ensures
            r.0@ == row_query_text(*self, *params),
            args_view(r.1@) == row_query_args(*self, *params),
            r.2 == crate::params::effective_page_spec(*params),
            r.3 == crate::params::effective_per_page_spec(*params),
    {
        let page = params.effective_page();
        let per_page = params.effective_per_page();
        let offset = params.offset();
        let (groups, mut args) = self.build_conditions(params);
        let (inc_joins, extras) = self.resolve_includes(params);

        let mut query = String::from_str("SELECT ");
        let select_joined = crate::strutil::join_strings(&self.select_fields, ", ");
        query.append(select_joined.as_str());
        if !crate::strutil::vec_contains_str(&self.select_fields, "*") {
            query.append(extras.as_str());
        }
        query.append(" FROM ");
        query.append(self.table.as_str());
        proof {
            assert(query@ =~= "SELECT "@ + select_clause(*self, *params) + " FROM "@
                + self.table@);
        }
        Self::append_clauses(&mut query, &self.joins);
        Self::append_clauses(&mut query, &inc_joins);
        if groups.len() > 0 {
            query.append(" WHERE ");
            let joined = crate::strutil::join_strings(&groups, " AND ");
            query.append(joined.as_str());
        }
        proof {
            assert(query@ =~= "SELECT "@ + select_clause(*self, *params) + " FROM "@
                + self.table@ + from_joins_text(*self, *params) + where_clause(*self, *params));
        }
        let sort_by: &str = match &params.sort_by {
            Some(s) => s.as_str(),
            None => "created_at",
        };
        let dir: &str = match &params.sort_order {
            Some(s) => s.as_str(),
            None => "desc",
        };
        if crate::strutil::vec_contains_str(&self.sortable_fields, sort_by) {
            query.append(" ORDER BY ");
            query.append(sort_by);
            query.append(" ");
            if is_asc_str(dir) {
                query.append("ASC");
            } else {
                query.append("DESC");
            }
        } else {
            query.append(" ORDER BY created_at DESC");
        }
        proof {
            assert(query@ =~= "SELECT "@ + select_clause(*self, *params) + " FROM "@
                + self.table@ + from_joins_text(*self, *params) + where_clause(*self, *params)
                + order_clause(*self, *params));
        }
        let ghost cond_args = args@;
        args.push(ArgValue::Integer(per_page as i64));
        let n1 = crate::strutil::u64_to_string(args.len() as u64);
        query.append(" LIMIT $");
        query.append(n1.as_str());
        proof {
            crate::values::lemma_args_view_push(cond_args, args@.last());
            vstd::arithmetic::mul::lemma_mul_upper_bound(
                page - 1,
                u32::MAX as int,
                per_page as int,
                100,
            );
        }
        let ghost with_limit = args@;
        args.push(ArgValue::Integer(offset as i64));
        let n2 = crate::strutil::u64_to_string(args.len() as u64);
        query.append(" OFFSET $");
        query.append(n2.as_str());
        proof {
            crate::values::lemma_args_view_push(with_limit, args@.last());
            assert(query@ =~= row_query_text(*self, *params));
            assert(args_view(args@) =~= row_query_args(*self, *params));
        }
        (query, args, page, per_page)
    }

    /// Builds the count statement of a request: the same joins and exactly
    /// the same predicates and bound values as the row statement, so the
    /// total describes the set being paged.
    pub fn build_count_query(&self, params: &QueryParams) -> (r: (String, Vec<ArgValue>))
        ensures
            r.0@ == count_query_text(*self, *params),
            args_view(r.1@) == condition_args(*self, *params),
    {
        let (groups, args) = self.build_conditions(params);
        let (inc_joins, _) = self.resolve_includes(params);
        let mut query = String::from_str("SELECT COUNT(*) as total FROM ");
        query.append(self.table.as_str());
        Self::append_clauses(&mut query, &self.joins);
        Self::append_clauses(&mut query, &inc_joins);
        if groups.len() > 0 {
            query.append(" WHERE ");
            let joined = crate::strutil::join_strings(&groups, " AND ");
            query.append(joined.as_str());
        }
        proof {
            assert(query@ =~= count_query_text(*self, *params));
        }
        (query, args)
    }

    /// The navigation links of a page of this resource.
    pub fn generate_pagination_links(
        &self,
        page: u32,
        total_pages: u32,
        per_page: u32,
        base_url: &str,
    ) -> (r: crate::pagination::PaginationLinks)
        ensures
            r.first@ == crate::pagination::link_str(base_url@, 1, per_page as nat),
            r.last@ == crate::pagination::link_str(base_url@, total_pages as nat, per_page as nat),
            r.previous is Some <==> page > 1,
            r.previous matches Some(p) ==> p@ == crate::pagination::link_str(
                base_url@,
                (page - 1) as nat,
                per_page as nat,
            ),
            r.next is Some <==> page < total_pages,
            r.next matches Some(n) ==> n@ == crate::pagination::link_str(
                base_url@,
                (page + 1) as nat,
                per_page as nat,
            ),
    {
        crate::pagination::make_pagination_links(page, total_pages, per_page, base_url)
    }
}

} // verus!

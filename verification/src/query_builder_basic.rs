//! A reduced variant of the query builders kept alongside
//! [`crate::query_builder`]: its `Item` rendering carries the `FROM` keyword
//! itself, its conditions know no edge expressions, and its insert and delete
//! queries take no return clause, so its output differs from the full
//! builder's and callers of either format are served.

use vstd::prelude::*;

use crate::text::{comma_list, drop_two, lemma_comma_list_step, pop_two, i32_to_string, dec_int};

verus! {

/// Whether a query addresses a whole table or one record of it.
#[derive(Debug)]
pub enum Item {
    Table(String),
    Record { tb: String, id: String },
}

/// ` FROM table` for a table, ` FROM table:id` for a record.
pub open spec fn spec_item(it: Item) -> Seq<char> {
    match it {
        Item::Table(t) => " FROM "@ + t@,
        Item::Record { tb, id } => " FROM "@ + tb@ + ":"@ + id@,
    }
}

impl Item {
    /// Renders the target with its leading `FROM` keyword.
    pub fn to_query_string(&self) -> (r: String)
        ensures
            r@ == spec_item(*self),
    {
        match self {
            Item::Table(t) => {
                let mut r = String::from_str(" FROM ");
                r.append(t.as_str());
                r
            },
            Item::Record { tb, id } => {
                let mut r = String::from_str(" FROM ");
                r.append(tb.as_str());
                r.append(":");
                r.append(id.as_str());
                r
            },
        }
    }
}

/// The projection of a select query: every column or a named list.
#[derive(Debug)]
pub enum Column {
    All,
    Specific(Vec<String>),
}

/// `Select * ` for all columns, else `Select ` and the comma-separated names.
pub open spec fn spec_column(c: Column) -> Seq<char> {
    match c {
        Column::All => "Select * "@,
        Column::Specific(names) => drop_two("Select "@ + comma_list(names.deep_view())),
    }
}

impl Column {
    /// Renders the projection clause.
    pub fn to_query_string(&self) -> (r: String)
        ensures
            r@ == spec_column(*self),
    {
        match self {
            Column::All => String::from_str("Select * "),
            Column::Specific(names) => {
                let mut q = String::from_str("Select ");
                append_comma_list(&mut q, names);
                pop_two(&mut q);
                q
            },
        }
    }
}

/// Appends every element of `items` followed by `", "`.
fn append_comma_list(q: &mut String, items: &Vec<String>)
    ensures
        final(q)@ == old(q)@ + comma_list(items.deep_view()),
{
    let ghost base = old(q)@;
    proof {
        assert(items.deep_view().take(0) =~= Seq::<Seq<char>>::empty());
        assert(base + comma_list(items.deep_view().take(0)) =~= base);
    }
    let mut i: usize = 0;
    while i < items.len()
        invariant
            i <= items.len(),
            q@ == base + comma_list(items.deep_view().take(i as int)),
        decreases items.len() - i,
    {
        q.append(items[i].as_str());
        q.append(", ");
        proof {
            lemma_comma_list_step(items.deep_view(), i as int);
            assert(q@ =~= base + comma_list(items.deep_view().take(i + 1)));
        }
        i = i + 1;
    }
    proof {
        assert(items.deep_view().take(items.len() as int) =~= items.deep_view());
    }
}

/// How one condition is chained to the next.
pub enum ExpressionConnector {
    And,
    Or,
    End,
}

/// ` AND `, ` OR `, or a single space for the last condition.
pub open spec fn spec_connector(c: ExpressionConnector) -> Seq<char> {
    match c {
        ExpressionConnector::And => " AND "@,
        ExpressionConnector::Or => " OR "@,
        ExpressionConnector::End => " "@,
    }
}

impl ExpressionConnector {
    /// Renders the connector.
    pub fn to_query_string(&self) -> (r: String)
        ensures
            r@ == spec_connector(*self),
    {
        match self {
            ExpressionConnector::And => String::from_str(" AND "),
            ExpressionConnector::Or => String::from_str(" OR "),
            ExpressionConnector::End => String::from_str(" "),
        }
    }
}

/// One comparison between a column and a value.
#[derive(Debug)]
pub enum Expression {
    EqualTo(String, String),
    NotEqualTo(String, String),
    GreaterThan(String, String),
    LessThan(String, String),
    GreaterThanOrEqualTo(String, String),
    LessThanOrEqualTo(String, String),
    IsNone(String),
    IsNotNone(String),
}

/// The condition, space-padded, with its operator written out.
pub open spec fn spec_expression(e: Expression) -> Seq<char> {
    match e {
        Expression::EqualTo(c, v) => " "@ + c@ + " = "@ + v@ + " "@,
        Expression::NotEqualTo(c, v) => " "@ + c@ + " != "@ + v@ + " "@,
        Expression::GreaterThan(c, v) => " "@ + c@ + " > "@ + v@ + " "@,
        Expression::LessThan(c, v) => " "@ + c@ + " < "@ + v@ + " "@,
        Expression::GreaterThanOrEqualTo(c, v) => " "@ + c@ + " >= "@ + v@ + " "@,
        Expression::LessThanOrEqualTo(c, v) => " "@ + c@ + " <= "@ + v@ + " "@,
        Expression::IsNone(c) => " "@ + c@ + " = None "@,
        Expression::IsNotNone(c) => " "@ + c@ + " != None "@,
    }
}

impl Expression {
    /// Renders the condition.
    pub fn to_query_string(&self) -> (r: String)
        ensures
            r@ == spec_expression(*self),
    {
        let mut q = String::from_str(" ");
        match self {
            Expression::EqualTo(c, v) => {
                q.append(c.as_str());
                q.append(" = ");
                q.append(v.as_str());
                q.append(" ");
            },
            Expression::NotEqualTo(c, v) => {
                q.append(c.as_str());
                q.append(" != ");
                q.append(v.as_str());
                q.append(" ");
            },
            Expression::GreaterThan(c, v) => {
                q.append(c.as_str());
                q.append(" > ");
                q.append(v.as_str());
                q.append(" ");
            },
            Expression::LessThan(c, v) => {
                q.append(c.as_str());
                q.append(" < ");
                q.append(v.as_str());
                q.append(" ");
            },
            Expression::GreaterThanOrEqualTo(c, v) => {
                q.append(c.as_str());
                q.append(" >= ");
                q.append(v.as_str());
                q.append(" ");
            },
            Expression::LessThanOrEqualTo(c, v) => {
                q.append(c.as_str());
                q.append(" <= ");
                q.append(v.as_str());
                q.append(" ");
            },
            Expression::IsNone(c) => {
                q.append(c.as_str());
                q.append(" = None ");
            },
            Expression::IsNotNone(c) => {
                q.append(c.as_str());
                q.append(" != None ");
            },
        }
        q
    }
}

/// The grouping clause of a select query.
pub enum Group {
    All,
    Specific(Vec<String>),
}

/// ` GROUP ALL`, or ` GROUP ` with the column names and a trailing space.
pub open spec fn spec_group(g: Group) -> Seq<char> {
    match g {
        Group::All => " GROUP ALL"@,
        Group::Specific(names) => drop_two(" GROUP "@ + comma_list(names.deep_view())) + " "@,
    }
}

impl Group {
    /// Renders the grouping clause.
    pub fn to_query_string(&self) -> (r: String)
        ensures
            r@ == spec_group(*self),
    {
        match self {
            Group::All => String::from_str(" GROUP ALL"),
            Group::Specific(names) => {
                let mut q = String::from_str(" GROUP ");
                append_comma_list(&mut q, names);
                pop_two(&mut q);
                q.append(" ");
                q
            },
        }
    }
}

/// The ordering clause of a select query.
#[derive(Debug)]
pub enum OrderBy {
    Ascending(Vec<String>),
    Descending(Vec<String>),
}

/// ` ORDER BY ` with the column names, closed by ` ASC` or ` DESC`.
pub open spec fn spec_order_by(o: OrderBy) -> Seq<char> {
    match o {
        OrderBy::Ascending(names) => drop_two(" ORDER BY "@ + comma_list(names.deep_view()))
            + " ASC"@,
        OrderBy::Descending(names) => drop_two(" ORDER BY "@ + comma_list(names.deep_view()))
            + " DESC"@,
    }
}

impl OrderBy {
    /// Renders the ordering clause.
    pub fn to_query_string(&self) -> (r: String)
        ensures
            r@ == spec_order_by(*self),
    {
        match self {
            OrderBy::Ascending(names) => {
                let mut q = String::from_str(" ORDER BY ");
                append_comma_list(&mut q, names);
                pop_two(&mut q);
                q.append(" ASC");
                q
            },
            OrderBy::Descending(names) => {
                let mut q = String::from_str(" ORDER BY ");
                append_comma_list(&mut q, names);
                pop_two(&mut q);
                q.append(" DESC");
                q
            },
        }
    }
}

/// The rendering of a whole condition list: each condition followed by its
/// connector, in order.
pub open spec fn spec_condition_list(cs: Seq<(Expression, ExpressionConnector)>) -> Seq<char>
    decreases cs.len(),
{
    if cs.len() == 0 {
        Seq::empty()
    } else {
        spec_condition_list(cs.drop_last()) + spec_expression(cs.last().0)
            + spec_connector(cs.last().1)
    }
}

/// Extending a prefix of the condition list extends its rendering by one
/// condition and its connector.
proof fn lemma_condition_list_step(cs: Seq<(Expression, ExpressionConnector)>, i: int)
    requires
        0 <= i < cs.len(),
    ensures
        spec_condition_list(cs.take(i + 1)) == spec_condition_list(cs.take(i))
            + spec_expression(cs[i].0) + spec_connector(cs[i].1),
{
    assert(cs.take(i + 1).drop_last() =~= cs.take(i));
    assert(cs.take(i + 1).last() == cs[i]);
}

/// Appends every condition of `cs` followed by its connector.
fn append_condition_list(q: &mut String, cs: &Vec<(Expression, ExpressionConnector)>)
    ensures
        final(q)@ == old(q)@ + spec_condition_list(cs@),
{
    let ghost base = old(q)@;
    proof {
        assert(cs@.take(0) =~= Seq::<(Expression, ExpressionConnector)>::empty());
        assert(base + spec_condition_list(cs@.take(0)) =~= base);
    }
    let mut i: usize = 0;
    while i < cs.len()
        invariant
            i <= cs.len(),
            q@ == base + spec_condition_list(cs@.take(i as int)),
        decreases cs.len() - i,
    {
        let e = cs[i].0.to_query_string();
        q.append(e.as_str());
        let c = cs[i].1.to_query_string();
        q.append(c.as_str());
        proof {
            lemma_condition_list_step(cs@, i as int);
            assert(q@ =~= base + spec_condition_list(cs@.take(i + 1)));
        }
        i = i + 1;
    }
    proof {
        assert(cs@.take(cs.len() as int) =~= cs@);
    }
}

/// The full select query for the given parts.
pub open spec fn spec_select_query(
    table_name: Item,
    column_names: Column,
    condition: Option<Vec<(Expression, ExpressionConnector)>>,
    group_by: Option<Group>,
    order_by: Option<OrderBy>,
    limit: Option<i32>,
    start: Option<i32>,
) -> Seq<char> {
    spec_column(column_names) + spec_item(table_name) + (match condition {
        Some(cs) => if cs@.len() > 0 {
            " WHERE "@ + spec_condition_list(cs@)
        } else {
            Seq::empty()
        },
        None => Seq::empty(),
    }) + (match group_by {
        Some(g) => spec_group(g),
        None => Seq::empty(),
    }) + (match order_by {
        Some(o) => spec_order_by(o),
        None => Seq::empty(),
    }) + (match limit {
        Some(n) => " LIMIT "@ + dec_int(n as int),
        None => Seq::empty(),
    }) + (match start {
        Some(n) => " START "@ + dec_int(n as int),
        None => Seq::empty(),
    })
}

/// Builds a select query from its parts; a `None` part leaves its clause out,
/// as does an empty condition list.
pub fn get_select_query(
    table_name: Item,
    column_names: Column,
    condition: Option<Vec<(Expression, ExpressionConnector)>>,
    group_by: Option<Group>,
    order_by: Option<OrderBy>,
    limit: Option<i32>,
    start: Option<i32>,
) -> (query: String)
    ensures
        query@ == spec_select_query(
            table_name,
            column_names,
            condition,
            group_by,
            order_by,
            limit,
            start,
        ),
{
    let mut query = String::new();

    let cols = column_names.to_query_string();
    query.append(cols.as_str());
    let item = table_name.to_query_string();
    query.append(item.as_str());

    let ghost s0 = spec_column(column_names) + spec_item(table_name);
    proof {
        assert(query@ =~= s0);
    }

    match &condition {
        Some(cs) => {
            if cs.len() > 0 {
                query.append(" WHERE ");
                append_condition_list(&mut query, cs);
            }
        },
        None => {},
    }
    let ghost s1 = s0 + (match condition {
        Some(cs) => if cs@.len() > 0 {
            " WHERE "@ + spec_condition_list(cs@)
        } else {
            Seq::empty()
        },
        None => Seq::empty(),
    });
    proof {
        assert(query@ =~= s1);
    }

    match &group_by {
        Some(g) => {
            let s = g.to_query_string();
            query.append(s.as_str());
        },
        None => {},
    }
    let ghost s2 = s1 + (match group_by {
        Some(g) => spec_group(g),
        None => Seq::empty(),
    });
    proof {
        assert(query@ =~= s2);
    }

    match &order_by {
        Some(o) => {
            let s = o.to_query_string();
            query.append(s.as_str());
        },
        None => {},
    }
    let ghost s3 = s2 + (match order_by {
        Some(o) => spec_order_by(o),
        None => Seq::empty(),
    });
    proof {
        assert(query@ =~= s3);
    }

    match &limit {
        Some(n) => {
            query.append(" LIMIT ");
            let s = i32_to_string(*n);
            query.append(s.as_str());
        },
        None => {},
    }
    let ghost s4 = s3 + (match limit {
        Some(n) => " LIMIT "@ + dec_int(n as int),
        None => Seq::empty(),
    });
    proof {
        assert(query@ =~= s4);
    }

    match &start {
        Some(n) => {
            query.append(" START ");
            let s = i32_to_string(*n);
            query.append(s.as_str());
        },
        None => {},
    }
    proof {
        assert(query@ =~= s4 + (match start {
            Some(n) => " START "@ + dec_int(n as int),
            None => Seq::empty(),
        }));
        assert(query@ =~= spec_select_query(
            table_name,
            column_names,
            condition,
            group_by,
            order_by,
            limit,
            start,
        ));
    }
    query
}

/// The insert query built from a column list and a value list.
pub open spec fn spec_insert_query_by_fields(
    table_name: Seq<char>,
    column_names: Seq<Seq<char>>,
    values: Seq<Seq<char>>,
) -> Seq<char> {
    drop_two(
        drop_two("INSERT INTO "@ + table_name + " ("@ + comma_list(column_names)) + ") VALUES ("@
            + comma_list(values),
    ) + ")"@
}

/// Builds `INSERT INTO table (columns) VALUES (values)`.
pub fn get_insert_query_by_fields(
    table_name: String,
    column_names: Vec<String>,
    values: Vec<String>,
) -> (query: String)
    ensures
        query@ == spec_insert_query_by_fields(
            table_name@,
            column_names.deep_view(),
            values.deep_view(),
        ),
{
    let mut query = String::new();

    query.append("INSERT INTO ");
    query.append(table_name.as_str());
    query.append(" (");
    append_comma_list(&mut query, &column_names);
    pop_two(&mut query);

    query.append(") VALUES (");
    append_comma_list(&mut query, &values);
    pop_two(&mut query);

    query.append(")");

    proof {
        assert(query@ =~= spec_insert_query_by_fields(
            table_name@,
            column_names.deep_view(),
            values.deep_view(),
        ));
    }
    query
}

/// A flat object to be written into the database: keys and values kept in
/// insertion order, in step with one another.
#[derive(Debug)]
pub struct DatabaseObject {
    pub keys: Vec<String>,
    pub values: Vec<String>,
}

/// The rendering of the key/value pairs: each as `key: value` followed by
/// `", "`.
pub open spec fn spec_pair_list(ks: Seq<Seq<char>>, vs: Seq<Seq<char>>) -> Seq<char>
    decreases ks.len(),
{
    if ks.len() == 0 || vs.len() == 0 {
        Seq::empty()
    } else {
        spec_pair_list(ks.drop_last(), vs.drop_last()) + ks.last() + ": "@ + vs.last() + ", "@
    }
}

/// Extending equal-length prefixes of the key and value lists extends the
/// rendering by one `key: value, ` entry.
proof fn lemma_pair_list_step(ks: Seq<Seq<char>>, vs: Seq<Seq<char>>, i: int)
    requires
        0 <= i < ks.len(),
        ks.len() == vs.len(),
    ensures
        spec_pair_list(ks.take(i + 1), vs.take(i + 1)) == spec_pair_list(ks.take(i), vs.take(i))
            + ks[i] + ": "@ + vs[i] + ", "@,
{
    assert(ks.take(i + 1).drop_last() =~= ks.take(i));
    assert(vs.take(i + 1).drop_last() =~= vs.take(i));
    assert(ks.take(i + 1).last() == ks[i]);
    assert(vs.take(i + 1).last() == vs[i]);
}

/// `{key: value, ...}` with the trailing separator trimmed.
pub open spec fn spec_database_object(o: DatabaseObject) -> Seq<char> {
    drop_two("{"@ + spec_pair_list(o.keys.deep_view(), o.values.deep_view())) + "}"@
}

impl DatabaseObject {
    /// An object with no keys and no values.
    pub fn new() -> (r: DatabaseObject)
        ensures
            r.keys@.len() == 0,
            r.values@.len() == 0,
    {
        DatabaseObject { keys: Vec::new(), values: Vec::new() }
    }

    /// Appends one key.
    pub fn add_key(&mut self, key: String)
        ensures
            final(self).keys@ == old(self).keys@.push(key),
            final(self).values@ == old(self).values@,
    {
        self.keys.push(key);
    }

    /// Appends one value.
    pub fn add_value(&mut self, value: String)
        ensures
            final(self).values@ == old(self).values@.push(value),
            final(self).keys@ == old(self).keys@,
    {
        self.values.push(value);
    }

    /// The keys, in insertion order.
    pub fn get_keys(&self) -> (r: Vec<String>)
        ensures
            r@ == self.keys@,
    {
        self.keys.clone()
    }

    /// The values, in insertion order.
    pub fn get_values(&self) -> (r: Vec<String>)
        ensures
            r@ == self.values@,
    {
        self.values.clone()
    }

    /// Renders the object; keys and values must have kept in step.
    pub fn to_query_string(&self) -> (r: String)
        requires
            self.keys@.len() == self.values@.len(),
        ensures
            r@ == spec_database_object(*self),
    {
        let ghost ks = self.keys.deep_view();
        let ghost vs = self.values.deep_view();
        let mut q = String::from_str("{");
        proof {
            assert(ks.take(0) =~= Seq::<Seq<char>>::empty());
            assert(vs.take(0) =~= Seq::<Seq<char>>::empty());
            assert("{"@ + spec_pair_list(ks.take(0), vs.take(0)) =~= "{"@);
        }
        let mut i: usize = 0;
        while i < self.keys.len()
            invariant
                i <= self.keys.len(),
                self.keys@.len() == self.values@.len(),
                ks == self.keys.deep_view(),
                vs == self.values.deep_view(),
                q@ == "{"@ + spec_pair_list(ks.take(i as int), vs.take(i as int)),
            decreases self.keys.len() - i,
        {
            q.append(self.keys[i].as_str());
            q.append(": ");
            q.append(self.values[i].as_str());
            q.append(", ");
            proof {
                lemma_pair_list_step(ks, vs, i as int);
                assert(q@ =~= "{"@ + spec_pair_list(ks.take(i + 1), vs.take(i + 1)));
            }
            i = i + 1;
        }
        proof {
            assert(ks.take(self.keys.len() as int) =~= ks);
            assert(vs.take(self.values.len() as int) =~= vs);
        }
        pop_two(&mut q);
        q.append("}");
        proof {
            assert(q@ =~= spec_database_object(*self));
        }
        q
    }
}

/// The insert query for one object.
pub open spec fn spec_insert_query_for_an_object(
    table_name: Seq<char>,
    object: DatabaseObject,
) -> Seq<char> {
    "INSERT INTO "@ + table_name + " "@ + spec_database_object(object)
}

/// Builds `INSERT INTO table {object}`.
pub fn get_insert_query_for_an_object(table_name: String, object: DatabaseObject) -> (query:
    String)
    requires
        object.keys@.len() == object.values@.len(),
    ensures
        query@ == spec_insert_query_for_an_object(table_name@, object),
{
    let mut query = String::new();

    query.append("INSERT INTO ");
    query.append(table_name.as_str());
    query.append(" ");
    let obj = object.to_query_string();
    query.append(obj.as_str());

    proof {
        assert(query@ =~= spec_insert_query_for_an_object(table_name@, object));
    }
    query
}

/// The renderings of a whole object list.
pub open spec fn spec_object_list(objects: Seq<DatabaseObject>) -> Seq<Seq<char>> {
    objects.map_values(|o: DatabaseObject| spec_database_object(o))
}

/// The insert query for an array of objects.
pub open spec fn spec_insert_query_for_an_array_of_objects(
    table_name: Seq<char>,
    objects: Seq<DatabaseObject>,
) -> Seq<char> {
    drop_two("INSERT INTO "@ + table_name + " ["@ + comma_list(spec_object_list(objects))) + "]"@
}

/// Builds `INSERT INTO table [{..}, {..}]`.
pub fn get_insert_query_for_an_array_of_objects(
    table_name: String,
    objects: Vec<DatabaseObject>,
) -> (query: String)
    requires
        forall|i: int|
            0 <= i < objects@.len() ==> objects@[i].keys@.len() == objects@[i].values@.len(),
    ensures
        query@ == spec_insert_query_for_an_array_of_objects(table_name@, objects@),
{
    let ghost rendered = spec_object_list(objects@);
    let mut query = String::new();

    query.append("INSERT INTO ");
    query.append(table_name.as_str());
    query.append(" [");

    proof {
        assert(rendered.take(0) =~= Seq::<Seq<char>>::empty());
        assert(query@ + comma_list(rendered.take(0)) =~= query@);
    }
    let ghost base = query@;
    let mut i: usize = 0;
    while i < objects.len()
        invariant
            i <= objects.len(),
            forall|j: int|
                0 <= j < objects@.len() ==> objects@[j].keys@.len() == objects@[j].values@.len(),
            rendered == spec_object_list(objects@),
            query@ == base + comma_list(rendered.take(i as int)),
        decreases objects.len() - i,
    {
        let obj = objects[i].to_query_string();
        query.append(obj.as_str());
        query.append(", ");
        proof {
            lemma_comma_list_step(rendered, i as int);
            assert(query@ =~= base + comma_list(rendered.take(i + 1)));
        }
        i = i + 1;
    }
    proof {
        assert(rendered.take(objects.len() as int) =~= rendered);
    }

    pop_two(&mut query);
    query.append("]");

    proof {
        assert(query@ =~= spec_insert_query_for_an_array_of_objects(table_name@, objects@));
    }
    query
}

/// The delete query for one record addressed as `table:id`.
pub open spec fn spec_delete_query_for_specific_record(
    table_name: Seq<char>,
    record_id: Seq<char>,
) -> Seq<char> {
    "DELETE "@ + table_name + ":"@ + record_id
}

/// Builds `DELETE table:id`.
pub fn get_delete_query_for_specific_record(table_name: String, record_id: String) -> (query:
    String)
    ensures
        query@ == spec_delete_query_for_specific_record(table_name@, record_id@),
{
    let mut query = String::new();

    query.append("DELETE ");
    query.append(table_name.as_str());
    query.append(":");
    query.append(record_id.as_str());

    proof {
        assert(query@ =~= spec_delete_query_for_specific_record(table_name@, record_id@));
    }
    query
}

/// The conditional delete query.
pub open spec fn spec_delete_query_with_conditions(
    table_name: Seq<char>,
    condition: Seq<(Expression, ExpressionConnector)>,
) -> Seq<char> {
    "DELETE "@ + table_name + " WHERE "@ + spec_condition_list(condition)
}

/// Builds `DELETE table WHERE conditions`.
pub fn get_delete_query_with_conditions(
    table_name: String,
    condition: Vec<(Expression, ExpressionConnector)>,
) -> (query: String)
    ensures
        query@ == spec_delete_query_with_conditions(table_name@, condition@),
{
    let mut query = String::new();

    query.append("DELETE ");
    query.append(table_name.as_str());
    query.append(" WHERE ");
    append_condition_list(&mut query, &condition);

    proof {
        assert(query@ =~= spec_delete_query_with_conditions(table_name@, condition@));
    }
    query
}

} // verus!

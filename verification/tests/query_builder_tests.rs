use chat_core::query_builder::{
    get_create_query_for_an_object, get_delete_query_for_specific_record,
    get_delete_query_with_conditions, get_insert_query_by_fields,
    get_insert_query_for_an_array_of_objects, get_insert_query_for_an_object, get_select_query,
    get_relate_query_with_content, Column, DatabaseObject, Expression, ExpressionConnector, Group,
    Item, OrderBy, Return,
};

#[test]
fn select_all_from_table() {
    let q = get_select_query(
        Item::Table("user".to_string()),
        Column::All,
        None,
        None,
        None,
        None,
        None,
    );
    assert_eq!(q, "Select *  FROM user");
}

#[test]
fn select_specific_columns_from_record() {
    let q = get_select_query(
        Item::Record { tb: "user".to_string(), id: "42".to_string() },
        Column::Specific(vec!["name".to_string(), "email".to_string()]),
        None,
        None,
        None,
        None,
        None,
    );
    assert_eq!(q, "Select name, email FROM user:42");
}

#[test]
fn select_with_conditions() {
    let q = get_select_query(
        Item::Table("user".to_string()),
        Column::All,
        Some(vec![
            (
                Expression::GreaterThan("age".to_string(), "18".to_string()),
                ExpressionConnector::And,
            ),
            (
                Expression::EqualTo("city".to_string(), "'colombo'".to_string()),
                ExpressionConnector::End,
            ),
        ]),
        None,
        None,
        None,
        None,
    );
    assert_eq!(q, "Select *  FROM user WHERE  age > 18  AND  city = 'colombo'  ");
}

#[test]
fn select_with_empty_condition_list_has_no_where_clause() {
    let q = get_select_query(
        Item::Table("user".to_string()),
        Column::All,
        Some(vec![]),
        None,
        None,
        None,
        None,
    );
    assert_eq!(q, "Select *  FROM user");
}

#[test]
fn select_with_grouping_ordering_limit_and_start() {
    let q = get_select_query(
        Item::Table("post".to_string()),
        Column::All,
        None,
        Some(Group::Specific(vec!["author".to_string()])),
        Some(OrderBy::Descending(vec!["created".to_string()])),
        Some(10),
        Some(20),
    );
    assert_eq!(q, "Select *  FROM post GROUP author  ORDER BY created DESC LIMIT 10 START 20");
}

#[test]
fn select_with_group_all_and_ascending_order() {
    let q = get_select_query(
        Item::Table("post".to_string()),
        Column::All,
        None,
        Some(Group::All),
        Some(OrderBy::Ascending(vec!["a".to_string(), "b".to_string()])),
        None,
        None,
    );
    assert_eq!(q, "Select *  FROM post GROUP ALL ORDER BY a, b ASC");
}

#[test]
fn select_with_negative_limit_renders_the_sign() {
    let q = get_select_query(
        Item::Table("t".to_string()),
        Column::All,
        None,
        None,
        None,
        Some(-5),
        None,
    );
    assert_eq!(q, "Select *  FROM t LIMIT -5");
}

#[test]
fn insert_by_fields_lines_up_columns_and_values() {
    let q = get_insert_query_by_fields(
        "user".to_string(),
        vec!["name".to_string(), "age".to_string()],
        vec!["'bob'".to_string(), "21".to_string()],
    );
    assert_eq!(q, "INSERT INTO user (name, age) VALUES ('bob', 21)");
}

#[test]
fn database_object_renders_pairs_in_insertion_order() {
    let mut obj = DatabaseObject::new();
    obj.add_key("name".to_string());
    obj.add_value("'bob'".to_string());
    obj.add_key("age".to_string());
    obj.add_value("21".to_string());
    assert_eq!(obj.get_keys(), vec!["name".to_string(), "age".to_string()]);
    assert_eq!(obj.get_values(), vec!["'bob'".to_string(), "21".to_string()]);
    assert_eq!(obj.to_query_string(), "{name: 'bob', age: 21}");
}

#[test]
fn empty_database_object_renders_as_a_bare_brace() {
    let obj = DatabaseObject::new();
    assert_eq!(obj.to_query_string(), "}");
}

#[test]
fn insert_object_carries_the_return_clause() {
    let mut obj = DatabaseObject::new();
    obj.add_key("name".to_string());
    obj.add_value("'bob'".to_string());
    let q = get_insert_query_for_an_object("user".to_string(), obj, Return::NONE);
    assert_eq!(q, "INSERT INTO user {name: 'bob'} RETURN NONE");
}

#[test]
fn insert_array_of_objects() {
    let mut a = DatabaseObject::new();
    a.add_key("x".to_string());
    a.add_value("1".to_string());
    let mut b = DatabaseObject::new();
    b.add_key("x".to_string());
    b.add_value("2".to_string());
    let q = get_insert_query_for_an_array_of_objects(
        "point".to_string(),
        vec![a, b],
        Return::After,
    );
    assert_eq!(q, "INSERT INTO point [{x: 1}, {x: 2}] RETURN AFTER");
}

#[test]
fn delete_for_specific_record() {
    let q = get_delete_query_for_specific_record("user".to_string(), "42".to_string());
    assert_eq!(q, "DELETE user:42");
}

#[test]
fn delete_with_conditions_and_return() {
    let q = get_delete_query_with_conditions(
        "user".to_string(),
        vec![(
            Expression::IsNone("email".to_string()),
            ExpressionConnector::End,
        )],
        Some(Return::Before),
    );
    assert_eq!(q, "DELETE user WHERE  email = None   RETURN BEFORE");
}

#[test]
fn create_query_for_an_object() {
    let mut obj = DatabaseObject::new();
    obj.add_key("name".to_string());
    obj.add_value("'bob'".to_string());
    let q = get_create_query_for_an_object(
        Item::Record { tb: "user".to_string(), id: "7".to_string() },
        obj,
        Return::Difference,
    );
    assert_eq!(q, "CREATE user:7 CONTENT {name: 'bob'} RETURN DIFF");
}

#[test]
fn relate_query_between_two_records() {
    let q = get_relate_query_with_content(
        Item::Record { tb: "user".to_string(), id: "1".to_string() },
        Item::Record { tb: "post".to_string(), id: "2".to_string() },
        "liked".to_string(),
        None,
    );
    assert_eq!(q, "Relate user:1->liked->post:2");
}

#[test]
fn relate_query_with_content_object() {
    let mut obj = DatabaseObject::new();
    obj.add_key("at".to_string());
    obj.add_value("'noon'".to_string());
    let q = get_relate_query_with_content(
        Item::Record { tb: "user".to_string(), id: "1".to_string() },
        Item::Record { tb: "post".to_string(), id: "2".to_string() },
        "liked".to_string(),
        Some(obj),
    );
    assert_eq!(q, "Relate user:1->liked->post:2{at: 'noon'}");
}

#[test]
fn return_fields_clause() {
    let q = get_insert_query_for_an_object(
        "user".to_string(),
        DatabaseObject::new(),
        Return::Fields { fields: vec!["name".to_string(), "age".to_string()] },
    );
    assert_eq!(q, "INSERT INTO user } RETURN name, age");
}

#[test]
fn empty_column_list_loses_trailing_characters() {
    let q = get_select_query(
        Item::Table("t".to_string()),
        Column::Specific(vec![]),
        None,
        None,
        None,
        None,
        None,
    );
    assert_eq!(q, "Selec FROM t");
}

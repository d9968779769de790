use chat_core::query_builder_basic::{
    get_delete_query_with_conditions, get_insert_query_by_fields,
    get_insert_query_for_an_array_of_objects, get_insert_query_for_an_object, get_select_query,
    Column, DatabaseObject, Expression, ExpressionConnector, Item, OrderBy,
};

#[test]
fn basic_item_carries_its_own_from_keyword() {
    assert_eq!(Item::Table("user".to_string()).to_query_string(), " FROM user");
    assert_eq!(
        Item::Record { tb: "user".to_string(), id: "9".to_string() }.to_query_string(),
        " FROM user:9"
    );
}

#[test]
fn basic_select_all() {
    let q = get_select_query(
        Item::Table("user".to_string()),
        Column::All,
        None,
        None,
        None,
        None,
        None,
    );
    assert_eq!(q, "Select *  FROM user");
}

#[test]
fn basic_select_with_condition_and_order() {
    let q = get_select_query(
        Item::Table("user".to_string()),
        Column::Specific(vec!["name".to_string()]),
        Some(vec![(
            Expression::LessThanOrEqualTo("age".to_string(), "30".to_string()),
            ExpressionConnector::End,
        )]),
        None,
        Some(OrderBy::Ascending(vec!["name".to_string()])),
        Some(3),
        None,
    );
    assert_eq!(q, "Select name FROM user WHERE  age <= 30   ORDER BY name ASC LIMIT 3");
}

#[test]
fn basic_insert_by_fields() {
    let q = get_insert_query_by_fields(
        "user".to_string(),
        vec!["name".to_string()],
        vec!["'eve'".to_string()],
    );
    assert_eq!(q, "INSERT INTO user (name) VALUES ('eve')");
}

#[test]
fn basic_insert_object_has_no_return_clause() {
    let mut obj = DatabaseObject::new();
    obj.add_key("name".to_string());
    obj.add_value("'bob'".to_string());
    let q = get_insert_query_for_an_object("user".to_string(), obj);
    assert_eq!(q, "INSERT INTO user {name: 'bob'}");
}

#[test]
fn basic_insert_array_of_objects() {
    let mut a = DatabaseObject::new();
    a.add_key("x".to_string());
    a.add_value("1".to_string());
    let q = get_insert_query_for_an_array_of_objects("point".to_string(), vec![a]);
    assert_eq!(q, "INSERT INTO point [{x: 1}]");
}

#[test]
fn basic_delete_with_conditions() {
    let q = get_delete_query_with_conditions(
        "user".to_string(),
        vec![(
            Expression::NotEqualTo("age".to_string(), "18".to_string()),
            ExpressionConnector::End,
        )],
    );
    assert_eq!(q, "DELETE user WHERE  age != 18  ");
}

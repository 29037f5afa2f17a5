use delta_bench::sql_text::referenced_table_names;

#[test]
fn extracts_unique_sorted_tables_from_from_and_join_clauses() {
    let sql = r#"
        SELECT ss_item_sk
        FROM store_sales ss
        JOIN date_dim d ON ss.ss_sold_date_sk = d.d_date_sk
        JOIN store_sales s2 ON s2.ss_item_sk = ss.ss_item_sk
    "#;
    assert_eq!(
        referenced_table_names(sql).expect("parse sql"),
        vec!["date_dim".to_string(), "store_sales".to_string()]
    );
}

#[test]
fn ignores_cte_aliases_and_keeps_base_tables() {
    let sql = r#"
        WITH sales_subset AS (
            SELECT ss_item_sk, ss_sold_date_sk
            FROM store_sales
            WHERE ss_quantity > 0
        )
        SELECT d.d_date_sk, COUNT(*)
        FROM sales_subset s
        JOIN date_dim d ON s.ss_sold_date_sk = d.d_date_sk
        GROUP BY d.d_date_sk
    "#;
    assert_eq!(
        referenced_table_names(sql).expect("parse sql"),
        vec!["date_dim".to_string(), "store_sales".to_string()]
    );
}

#[test]
fn ignores_derived_table_aliases_and_finds_nested_sources() {
    let sql = r#"
        SELECT COUNT(*)
        FROM (
            SELECT ss_item_sk
            FROM store_sales
            WHERE ss_quantity > 1
        ) derived_sales
        JOIN item i ON derived_sales.ss_item_sk = i.i_item_sk
    "#;
    assert_eq!(
        referenced_table_names(sql).expect("parse sql"),
        vec!["item".to_string(), "store_sales".to_string()]
    );
}

#[test]
fn extracts_tables_from_comma_join_syntax() {
    let sql = r#"
        SELECT COUNT(*)
        FROM store_sales ss, date_dim d
        WHERE ss.ss_sold_date_sk = d.d_date_sk
    "#;
    assert_eq!(
        referenced_table_names(sql).expect("parse sql"),
        vec!["date_dim".to_string(), "store_sales".to_string()]
    );
}

#[test]
fn ignores_table_like_tokens_inside_comments() {
    let sql = r#"
        -- FROM fake_table should be ignored
        SELECT ss_item_sk
        FROM store_sales
        /* JOIN another_fake_table x ON x.id = 1 */
        JOIN date_dim d ON d.d_date_sk = store_sales.ss_sold_date_sk
    "#;
    assert_eq!(
        referenced_table_names(sql).expect("parse sql"),
        vec!["date_dim".to_string(), "store_sales".to_string()]
    );
}

#[test]
fn visits_both_sides_of_set_operations() {
    let sql = r#"
        SELECT id FROM store_sales
        UNION ALL
        SELECT id FROM web_sales
        EXCEPT
        SELECT id FROM catalog_sales
    "#;
    assert_eq!(
        referenced_table_names(sql).expect("parse sql"),
        vec![
            "catalog_sales".to_string(),
            "store_sales".to_string(),
            "web_sales".to_string(),
        ]
    );
}

#[test]
fn cte_bodies_contribute_their_own_references() {
    let sql = r#"
        WITH a AS (SELECT x FROM base_one),
             b AS (SELECT y FROM a JOIN base_two ON a.x = base_two.y)
        SELECT * FROM b
    "#;
    assert_eq!(
        referenced_table_names(sql).expect("parse sql"),
        vec!["base_one".to_string(), "base_two".to_string()]
    );
}

#[test]
fn cte_shadowing_applies_only_inside_its_scope() {
    // The derived table defines its own CTE named like a base table; the
    // outer query still reads the real one.
    let sql = r#"
        SELECT *
        FROM (WITH date_dim AS (SELECT 1 AS d FROM warehouse) SELECT d FROM date_dim) inner_q
        JOIN date_dim ON date_dim.d_date_sk = inner_q.d
    "#;
    assert_eq!(
        referenced_table_names(sql).expect("parse sql"),
        vec!["date_dim".to_string(), "warehouse".to_string()]
    );
}

#[test]
fn qualified_names_keep_their_last_part() {
    let sql = "SELECT * FROM main.tpcds.store_sales";
    assert_eq!(
        referenced_table_names(sql).expect("parse sql"),
        vec!["store_sales".to_string()]
    );
}

#[test]
fn string_literals_are_never_substring_matched() {
    let sql = "SELECT 'FROM phantom_table' FROM real_table";
    assert_eq!(
        referenced_table_names(sql).expect("parse sql"),
        vec!["real_table".to_string()]
    );
}

#[test]
fn parse_failures_are_reported_not_panics() {
    let err = delta_bench::sql_text::referenced_table_names("SELECT * FROM 'unterminated")
        .expect_err("unterminated literal must fail");
    assert!(err
        .message()
        .contains("failed to parse TPC-DS SQL for table registration"));
}

#[test]
fn table_names_are_case_normalized() {
    let sql = "SELECT * FROM Store_Sales JOIN DATE_DIM ON 1 = 1";
    assert_eq!(
        referenced_table_names(sql).expect("parse sql"),
        vec!["date_dim".to_string(), "store_sales".to_string()]
    );
}

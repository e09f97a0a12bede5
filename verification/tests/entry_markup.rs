use hitavada_crossword::parser::get_target_rect;

#[test]
fn main_test_get_target_rect_exact_match() {
    let html = r#"
        <map>
            <area shape="rect" coords="0,1625,1000,2775" href="test1"/>
        </map>
    "#;
    assert_eq!(get_target_rect(html), Some("test1".to_string()));
}

#[test]
fn main_test_get_target_rect_within_tolerance() {
    let html = r#"
        <map>
            <area shape="rect" coords="0,1670,1001,2764" href="test2"/>
        </map>
    "#;
    assert_eq!(get_target_rect(html), Some("test2".to_string()));
}

#[test]
fn main_test_get_target_rect_outside_tolerance() {
    let html = r#"
        <map>
            <area shape="rect" coords="0,1627,242,2286" href="test3"/>
        </map>
    "#;
    assert_eq!(get_target_rect(html), None);
}

#[test]
fn main_test_get_target_rect_wrong_x1() {
    let html = r#"
        <map>
            <area shape="rect" coords="10,1625,1000,2775" href="test4"/>
        </map>
    "#;
    assert_eq!(get_target_rect(html), None);
}

#[test]
fn main_test_get_target_rect_multiple_areas() {
    let html = r#"
        <map>
            <area shape="rect" coords="0,100,500,1000" href="test5"/>
            <area shape="rect" coords="0,1670,1001,2764" href="test6"/>
            <area shape="rect" coords="0,2000,500,3000" href="test7"/>
        </map>
    "#;
    assert_eq!(get_target_rect(html), Some("test6".to_string()));
}

#[test]
fn main_test_get_target_rect_invalid_coords() {
    let html = r#"
        <map>
            <area shape="rect" coords="invalid" href="test8"/>
            <area shape="rect" coords="0,1625,1000" href="test9"/>
        </map>
    "#;
    assert_eq!(get_target_rect(html), None);
}

#[test]
fn main_test_get_target_rect_empty_html() {
    let html = "";
    assert_eq!(get_target_rect(html), None);
}

#[test]
fn main_test_get_target_rect_no_areas() {
    let html = r#"
        <map>
        </map>
    "#;
    assert_eq!(get_target_rect(html), None);
}

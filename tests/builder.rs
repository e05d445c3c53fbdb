use jsdoc_gen::jsdoc::JsDoc;

#[test]
fn test_builder() {
    let builder = JsDoc::new("")
        .add_description("add description")
        .add_space()
        .add_param(
            "foo",
            Some("string".to_owned()),
            false,
            None,
            "foo description",
        )
        .add_param("baz", None, false, None, "")
        .add_param(
            "bar",
            Some("string".to_owned()),
            true,
            None,
            "bar description",
        )
        .add_param(
            "bar",
            Some("string".to_owned()),
            true,
            Some("default value".to_owned()),
            "bar description",
        )
        .add_return("string", "return of something")
        .build();

    let expected_output = "/**
 * add description
 *
 * @param {string} foo - foo description
 * @param {unknown} baz - 
 * @param {string} [bar] - bar description
 * @param {string} [bar=\"default value\"] - bar description
 * @returns {string} return of something
 */";

    assert_eq!(builder, expected_output);
}

use jsdoc_gen::parse::process;


#[test]
fn main_test_basic() {
    let source_code = r#"
            function testNoExport(param1: string, param2?: boolean) {

            }
            
            export function testExport(param1: string) {
            
            }
        "#;

    let expected_output = r#"
            /**
             * testNoExport
             *
             * @param {string} param1 - 
             * @param {boolean} [param2] - 
             */
            function testNoExport(param1: string, param2?: boolean) {

            }
            
            /**
             * testExport
             *
             * @param {string} param1 - 
             */
            export function testExport(param1: string) {
            
            }
        "#;

    let updated_code = process(source_code).unwrap();
    println!("{}", updated_code);
    assert_eq!(updated_code, expected_output);
}

#[test]
fn main_test_exported() {
    let source_code = r#"
            export function testExport(param1: string) {
            
            }
        "#;

    let expected_output = r#"
            /**
             * testExport
             *
             * @param {string} param1 - 
             */
            export function testExport(param1: string) {
            
            }
        "#;

    let updated_code = process(source_code).unwrap();
    println!("{}", updated_code);
    assert_eq!(updated_code, expected_output);
}

#[test]
fn main_test_defaults() {
    let source_code = r#"
            export function test(param1: string = "default value") {
            
            }
        "#;

    let expected_output = r#"
            /**
             * test
             *
             * @param {string} param1="default value" - 
             */
            export function test(param1: string = "default value") {
            
            }
        "#;

    let updated_code = process(source_code).unwrap();
    println!("{}", updated_code);
    assert_eq!(updated_code, expected_output);
}


#[test]
fn main_test_class() {
    let source_code = r#"
            class A {
                testNoExport(param1: string, param2?: bool) {
                    // TODO
                }

                public aa() {
                    // TODO
                }

                private b() {
                    // TODO
                }

                static c() {
                    // TODO
                }
            }
        "#;

    let expected_output = r#"
            class A {
                /**
                 * testNoExport
                 *
                 * @param {string} param1 - 
                 * @param {bool} [param2] - 
                 */
                testNoExport(param1: string, param2?: bool) {
                    // TODO
                }

                /**
                 * aa
                 */
                public aa() {
                    // TODO
                }

                /**
                 * b
                 */
                private b() {
                    // TODO
                }

                /**
                 * c
                 */
                static c() {
                    // TODO
                }
            }
        "#;

    let updated_code = process(source_code).unwrap();
    println!("a {}", updated_code);
    assert_eq!(updated_code, expected_output);
}

use skeptic::{
    apply_template, clean_omitted_line, create_test_input, extract_tests_from_string,
    parse_code_block_info, raw_literal, run, sanitize_test_name, should_write, Config, DocSource,
    GenError, Test,
};
use unindent::unindent;

fn get_line_number_from_test_name(test: Test) -> String {
    String::from(
        test.name
            .split('_')
            .last()
            .expect("There were no underscores!"),
    )
}

fn get_lines(lines: String) -> Vec<String> {
    lines
        .split('\n')
        .map(|string_slice| format!("{}\n", string_slice)) //restore line endings since they are removed by split.
        .collect()
}

fn config_for(docs: Vec<String>) -> Config {
    Config {
        root_dir: String::from("/project"),
        out_dir: String::from("/project/target/debug/build/x/out"),
        out_file: String::from("/project/target/debug/build/x/out/skeptic-tests.rs"),
        target_triple: String::from("x86_64-unknown-linux-gnu"),
        docs,
    }
}

#[test]
fn test_omitted_lines() {
    let lines = unindent(
        r###"
        # use std::collections::BTreeMap as Map;
        #
        #[allow(dead_code)]
        fn main() {
            let map = Map::new();
            #
            # let _ = map;
        }"###,
    );

    let expected = unindent(
        r###"
        use std::collections::BTreeMap as Map;

        #[allow(dead_code)]
        fn main() {
            let map = Map::new();

        let _ = map;
        }
        "###,
    );

    assert_eq!(create_test_input(&get_lines(lines)), expected);
}

#[test]
fn lib_test_omitted_lines() {
    let lines = unindent(
        r###"
        # use std::collections::BTreeMap as Map;
        #
        #[allow(dead_code)]
        fn main() {
            let map = Map::new();
            #
            # let _ = map;
        }"###,
    );

    let expected = unindent(
        r###"
        use std::collections::BTreeMap as Map;

        #[allow(dead_code)]
        fn main() {
            let map = Map::new();

        let _ = map;
        }
        "###,
    );

    assert_eq!(create_test_input(&get_lines(lines)), expected);
}

#[test]
fn test_sanitization_of_testnames() {
    assert_eq!(sanitize_test_name("My_Fun"), "my_fun");
    assert_eq!(sanitize_test_name("__my_fun_"), "my_fun");
    assert_eq!(sanitize_test_name("^$@__my@#_fun#$@"), "my_fun");
    assert_eq!(
        sanitize_test_name("my_long__fun___name___with____a_____lot______of_______spaces",),
        "my_long_fun_name_with_a_lot_of_spaces"
    );
    assert_eq!(sanitize_test_name("Löwe 老虎 Léopard"), "l_we_l_opard");
}

#[test]
fn lib_test_sanitization_of_testnames() {
    assert_eq!(sanitize_test_name("My_Fun"), "my_fun");
    assert_eq!(sanitize_test_name("__my_fun_"), "my_fun");
    assert_eq!(sanitize_test_name("^$@__my@#_fun#$@"), "my_fun");
    assert_eq!(
        sanitize_test_name("my_long__fun___name___with____a_____lot______of_______spaces",),
        "my_long_fun_name_with_a_lot_of_spaces"
    );
    assert_eq!(sanitize_test_name("Löwe 老虎 Léopard"), "l_we_l_opard");
}

#[test]
fn line_numbers_displayed_are_for_the_beginning_of_each_code_block() {
    let lines = unindent(
        r###"
        Rust code that should panic when running it.

        ```rust,should_panic",/
        fn main() {
            panic!(\"I should panic\");
        }
        ```

        Rust code that should panic when compiling it.

        ```rust,no_run,should_panic",//
        fn add(a: u32, b: u32) -> u32 {
            a + b
        }

        fn main() {
            add(1);
        }
        ```"###,
    );

    let tests =
        extract_tests_from_string(&create_test_input(&get_lines(lines)), &String::from("blah"))
            .unwrap();

    let test_names: Vec<String> = tests
        .0
        .into_iter()
        .map(|test| get_line_number_from_test_name(test))
        .collect();

    assert_eq!(test_names, vec!["3", "11"]);
}

#[test]
fn lib_line_numbers_displayed_are_for_the_beginning_of_each_code_block() {
    let lines = unindent(
        r###"
        Rust code that should panic when running it.

        ```rust,should_panic",/
        fn main() {
            panic!(\"I should panic\");
        }
        ```

        Rust code that should panic when compiling it.

        ```rust,no_run,should_panic",//
        fn add(a: u32, b: u32) -> u32 {
            a + b
        }

        fn main() {
            add(1);
        }
        ```"###,
    );

    let tests =
        extract_tests_from_string(&create_test_input(&get_lines(lines)), &String::from("blah"))
            .unwrap();

    let test_names: Vec<String> = tests
        .0
        .into_iter()
        .map(|test| get_line_number_from_test_name(test))
        .collect();

    assert_eq!(test_names, vec!["3", "11"]);
}

#[test]
fn line_numbers_displayed_are_for_the_beginning_of_each_section() {
    let lines = unindent(
        r###"
        ## Test Case  Names   With    weird     spacing       are        generated      without        error.

        ```rust", /
        struct Person<'a>(&'a str);
        fn main() {
          let _ = Person(\"bors\");
        }
        ```

        ## !@#$ Test Cases )(() with {}[] non alphanumeric characters ^$23 characters are \"`#`\" generated correctly @#$@#$  22.

        ```rust", //
        struct Person<'a>(&'a str);
        fn main() {
          let _ = Person(\"bors\");
        }
        ```

        ## Test cases with non ASCII ö_老虎_é characters are generated correctly.

        ```rust",//
        struct Person<'a>(&'a str);
        fn main() {
          let _ = Person(\"bors\");
        }
        ```"###,
    );

    let tests =
        extract_tests_from_string(&create_test_input(&get_lines(lines)), &String::from("blah"))
            .unwrap();

    let test_names: Vec<String> = tests
        .0
        .into_iter()
        .map(|test| get_line_number_from_test_name(test))
        .collect();

    assert_eq!(test_names, vec!["3", "12", "21"]);
}

#[test]
fn lib_line_numbers_displayed_are_for_the_beginning_of_each_section() {
    let lines = unindent(
        r###"
        ## Test Case  Names   With    weird     spacing       are        generated      without        error.

        ```rust", /
        struct Person<'a>(&'a str);
        fn main() {
          let _ = Person(\"bors\");
        }
        ```

        ## !@#$ Test Cases )(() with {}[] non alphanumeric characters ^$23 characters are \"`#`\" generated correctly @#$@#$  22.

        ```rust", //
        struct Person<'a>(&'a str);
        fn main() {
          let _ = Person(\"bors\");
        }
        ```

        ## Test cases with non ASCII ö_老虎_é characters are generated correctly.

        ```rust",//
        struct Person<'a>(&'a str);
        fn main() {
          let _ = Person(\"bors\");
        }
        ```"###,
    );

    let tests =
        extract_tests_from_string(&create_test_input(&get_lines(lines)), &String::from("blah"))
            .unwrap();

    let test_names: Vec<String> = tests
        .0
        .into_iter()
        .map(|test| get_line_number_from_test_name(test))
        .collect();

    assert_eq!(test_names, vec!["3", "12", "21"]);
}

#[test]
fn old_template_is_returned_for_old_skeptic_template_format() {
    let lines = unindent(
        r###"
        ```rust,skeptic-template
        ```rust,ignore
        use std::path::PathBuf;

        fn main() {{
            {}
        }}
        ```
        ```
        "###,
    );
    let expected = unindent(
        r###"
        ```rust,ignore
        use std::path::PathBuf;

        fn main() {{
            {}
        }}
        "###,
    );
    let tests =
        extract_tests_from_string(&create_test_input(&get_lines(lines)), &String::from("blah"))
            .unwrap();
    assert_eq!(tests.1, Some(expected));
}

#[test]
fn lib_old_template_is_returned_for_old_skeptic_template_format() {
    let lines = unindent(
        r###"
        ```rust,skeptic-template
        ```rust,ignore
        use std::path::PathBuf;

        fn main() {{
            {}
        }}
        ```
        ```
        "###,
    );
    let expected = unindent(
        r###"
        ```rust,ignore
        use std::path::PathBuf;

        fn main() {{
            {}
        }}
        "###,
    );
    let tests =
        extract_tests_from_string(&create_test_input(&get_lines(lines)), &String::from("blah"))
            .unwrap();
    assert_eq!(tests.1, Some(expected));
}

#[test]
fn old_template_is_not_returned_if_old_skeptic_template_is_not_specified() {
    let lines = unindent(
        r###"
        ```rust", /
        struct Person<'a>(&'a str);
        fn main() {
          let _ = Person(\"bors\");
        }
        ```
        "###,
    );
    let tests =
        extract_tests_from_string(&create_test_input(&get_lines(lines)), &String::from("blah"))
            .unwrap();
    assert_eq!(tests.1, None);
}

#[test]
fn lib_old_template_is_not_returned_if_old_skeptic_template_is_not_specified() {
    let lines = unindent(
        r###"
        ```rust", /
        struct Person<'a>(&'a str);
        fn main() {
          let _ = Person(\"bors\");
        }
        ```
        "###,
    );
    let tests =
        extract_tests_from_string(&create_test_input(&get_lines(lines)), &String::from("blah"))
            .unwrap();
    assert_eq!(tests.1, None);
}

#[test]
fn sanitizing_is_idempotent() {
    for s in [
        "My_Fun",
        "^$@__my@#_fun#$@",
        "Löwe 老虎 Léopard",
        "",
        "___",
        "a b c",
    ] {
        let once = sanitize_test_name(s);
        assert_eq!(sanitize_test_name(&once), once);
    }
}

#[test]
fn omitted_line_cleaning_cases() {
    assert_eq!(clean_omitted_line("    # use std::x;\n"), "use std::x;\n");
    assert_eq!(clean_omitted_line("    #\n"), "\n");
    assert_eq!(clean_omitted_line("let x = 1;\n"), "let x = 1;\n");
}

#[test]
fn omitted_markers_hide_behind_unicode_whitespace_too() {
    assert_eq!(
        clean_omitted_line("\u{00A0}\u{2003} # use std::x;\n"),
        "use std::x;\n"
    );
    assert_eq!(clean_omitted_line("\u{00A0}#\u{2028}"), "\u{2028}");
}

#[test]
fn section_names_flow_into_test_names() {
    let doc = "## My Section\n\n```rust\nfn main() {}\n```\n";
    let (tests, _) = extract_tests_from_string(doc, "blah").unwrap();
    assert_eq!(tests.len(), 1);
    assert_eq!(tests[0].name, "blah_sect_my_section_line_3");
}

#[test]
fn eligibility_follows_the_info_string() {
    assert!(!parse_code_block_info("python").is_eligible);
    assert!(parse_code_block_info("").is_eligible);
    assert!(parse_code_block_info("rust").is_eligible);
    let d = parse_code_block_info("rust,ignore");
    assert!(d.is_eligible);
    assert!(d.ignore);
    let doc = "```python\nprint(1)\n```\n";
    let (tests, _) = extract_tests_from_string(doc, "blah").unwrap();
    assert_eq!(tests.len(), 0);
}

#[test]
fn directive_flags_reach_the_test() {
    let d = parse_code_block_info("rust,no_run,should_panic");
    assert!(d.is_eligible && d.no_run && d.should_panic && !d.ignore);
    let d = parse_code_block_info("rust,skt-wrapper");
    assert_eq!(d.named_template, Some(String::from("wrapper")));
    let d = parse_code_block_info("rust,sk-part-of-zzz,sk-part-of-yyy,sk-part-of-zzz");
    assert_eq!(d.part_of, vec![String::from("zzz"), String::from("yyy")]);
}

#[test]
fn combined_blocks_make_one_test_in_document_order() {
    let doc = unindent(
        r###"
        ```rust,sk-part-of-zzz
        fn a() {}
        ```

        ```rust,no_run,sk-part-of-zzz
        fn main() { a(); }
        ```
        "###,
    );
    let (tests, old) = extract_tests_from_string(&doc, "blah").unwrap();
    assert_eq!(old, None);
    assert_eq!(tests.len(), 1);
    assert_eq!(tests[0].name, "blah_zzz");
    assert!(tests[0].combined);
    assert!(tests[0].no_run);
    assert!(!tests[0].should_panic);
    assert_eq!(tests[0].parts.len(), 2);
    assert_eq!(tests[0].parts[0].text, vec![String::from("fn a() {}\n")]);
    assert_eq!(
        tests[0].parts[1].text,
        vec![String::from("fn main() { a(); }\n")]
    );
}

#[test]
fn grouping_an_ignored_block_is_rejected() {
    let doc = "```rust,ignore,sk-part-of-zzz\nfn main() {}\n```\n";
    match extract_tests_from_string(doc, "blah") {
        Err(GenError::InvalidDirectives { doc, group }) => {
            assert_eq!(doc, "blah");
            assert_eq!(group, "zzz");
        }
        _ => panic!("expected the invalid directive combination to be rejected"),
    }
}

#[test]
fn legacy_template_back_patches_the_plain_test() {
    let doc = unindent(
        r###"
        ```rust
        let x = 5;
        ```

        ```rust,skeptic-template
        fn main() {{
            {}
        }}
        ```
        "###,
    );
    let assembled = apply_template("fn main() {{\n    {}\n}}\n", "let x = 5;\n");
    assert_eq!(assembled, "fn main() {\n    let x = 5;\n\n}\n");
    let config = config_for(vec![String::from("doc.md")]);
    let src = DocSource {
        path: String::from("doc.md"),
        contents: doc,
        template_contents: None,
    };
    let out = run(&config, &vec![src]).unwrap();
    assert!(out.starts_with("extern crate skeptic;\n"));
    assert_eq!(out.matches("#[test] fn ").count(), 1);
    assert!(out.contains(&format!("let s = r####\"\n{}\"####;", assembled)));
    assert!(out.contains("skeptic::rt::run_test("));
}

#[test]
fn named_templates_come_from_the_template_file() {
    let doc = "```rust,skt-wrapper\nlet y = 2;\n```\n";
    let tpl = "```rust,skt-wrapper\nfn main() {{\n    {}\n}}\n```\n";
    let config = config_for(vec![String::from("doc.md")]);
    let src = DocSource {
        path: String::from("doc.md"),
        contents: String::from(doc),
        template_contents: Some(String::from(tpl)),
    };
    let out = run(&config, &vec![src]).unwrap();
    assert!(out.contains("let s = r####\"\nfn main() {\n    let y = 2;\n\n}\n\"####;"));
}

#[test]
fn a_missing_named_template_aborts_generation() {
    let doc = "```rust,skt-missing\nlet y = 2;\n```\n";
    let config = config_for(vec![String::from("doc.md")]);
    let src = DocSource {
        path: String::from("doc.md"),
        contents: String::from(doc),
        template_contents: None,
    };
    match run(&config, &vec![src]) {
        Err(GenError::TemplateNotFound { doc, template }) => {
            assert_eq!(doc, "doc.md");
            assert_eq!(template, "missing");
            let msg = GenError::TemplateNotFound { doc, template }.message();
            assert_eq!(msg, "template missing not found for doc.md");
        }
        _ => panic!("expected the missing template to abort generation"),
    }
}

#[test]
fn a_template_definition_in_a_group_is_rejected() {
    let doc = "```rust\nlet y = 2;\n```\n";
    let tpl = "```rust,skt-wrapper,sk-part-of-zzz\nfn main() {{ {} }}\n```\n";
    let config = config_for(vec![String::from("doc.md")]);
    let src = DocSource {
        path: String::from("doc.md"),
        contents: String::from(doc),
        template_contents: Some(String::from(tpl)),
    };
    match run(&config, &vec![src]) {
        Err(GenError::InvalidDirectives { doc, group }) => {
            assert_eq!(doc, "doc.md");
            assert_eq!(group, "wrapper");
        }
        _ => panic!("expected the grouped template definition to be rejected"),
    }
}

#[test]
fn ignore_and_should_panic_become_annotations() {
    let doc = "```rust,ignore,should_panic\nfn main() { panic!(\"boom\"); }\n```\n";
    let config = config_for(vec![String::from("doc.md")]);
    let src = DocSource {
        path: String::from("doc.md"),
        contents: String::from(doc),
        template_contents: None,
    };
    let out = run(&config, &vec![src]).unwrap();
    assert!(out.contains("#[ignore]\n#[should_panic]\n#[test] fn doc_line_1() {"));
    assert!(out.contains("skeptic::rt::run_test("));
}

#[test]
fn no_run_tests_only_compile() {
    let doc = "```rust,no_run\nfn main() {}\n```\n";
    let config = config_for(vec![String::from("doc.md")]);
    let src = DocSource {
        path: String::from("doc.md"),
        contents: String::from(doc),
        template_contents: None,
    };
    let out = run(&config, &vec![src]).unwrap();
    assert!(out.contains("skeptic::rt::compile_test("));
    assert!(!out.contains("skeptic::rt::run_test("));
}

#[test]
fn generating_twice_is_byte_identical_and_skips_the_write() {
    let doc = "# Title\n\n```rust\nfn main() {}\n```\n";
    let config = config_for(vec![String::from("doc.md")]);
    let make = || {
        let src = DocSource {
            path: String::from("doc.md"),
            contents: String::from(doc),
            template_contents: None,
        };
        run(&config, &vec![src]).unwrap()
    };
    let first = make();
    let second = make();
    assert_eq!(first, second);
    assert!(!should_write(Some(&first), &second));
    assert!(should_write(None, &second));
    assert!(should_write(Some("something else"), &second));
}

#[test]
fn raw_literals_outgrow_their_content() {
    assert_eq!(raw_literal("hi"), "r####\"hi\"####");
    assert_eq!(raw_literal("\"####"), "r#####\"\"####\"#####");
    let wild = "x\"########x";
    let lit = raw_literal(wild);
    assert!(lit.starts_with("r#########\""));
    assert!(lit.ends_with("\"#########"));
}

#[test]
fn templates_substitute_like_format_strings() {
    assert_eq!(apply_template("{}", "body"), "body");
    assert_eq!(apply_template("a{{b}}c", "x"), "a{b}c");
    assert_eq!(
        apply_template("fn main() {{\n    {}\n}}", "let a = 1;"),
        "fn main() {\n    let a = 1;\n}"
    );
}

#[test]
fn no_documents_generate_only_the_header() {
    let config = config_for(Vec::new());
    let out = run(&config, &Vec::new()).unwrap();
    assert_eq!(out, "extern crate skeptic;\n");
}

#[test]
fn the_most_recent_legacy_template_wins() {
    let doc = "```rust,skeptic-template\nfirst {}\n```\n\n```rust,skeptic-template\nsecond {}\n```\n";
    let (tests, old) = extract_tests_from_string(doc, "blah").unwrap();
    assert_eq!(tests.len(), 0);
    assert_eq!(old, Some(String::from("second {}\n")));
}

#[test]
fn a_template_name_rebinds_to_the_latest_body() {
    let tpl = "```rust,skt-w\nfirst {}\n```\n\n```rust,skt-w\nsecond {}\n```\n";
    let map = skeptic::load_templates(Some(tpl), "doc.md").unwrap();
    assert_eq!(map, vec![(String::from("w"), String::from("second {}\n"))]);
}

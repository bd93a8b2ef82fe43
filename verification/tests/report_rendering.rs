use graders_relay::report::{
    pass_fail, report_to_markdown, signal_to_explanation, Group, Report, Test,
};

#[test]
fn pass_fail_phrasing() {
    assert_eq!(pass_fail(5, 5), "all 5 passing");
    assert_eq!(pass_fail(0, 5), "all 5 failing");
    assert_eq!(pass_fail(3, 5), "2 failing out of 5");
    assert_eq!(pass_fail(6, 5), "6 passing out of 5 [!]");
    assert_eq!(pass_fail(0, 0), "all 0 passing");
    assert_eq!(pass_fail(12, 345), "333 failing out of 345");
}

#[test]
fn signal_phrases() {
    assert_eq!(signal_to_explanation(4), "illegal instruction");
    assert_eq!(
        signal_to_explanation(6),
        "abort, possibly because of a failed assertion"
    );
    assert_eq!(signal_to_explanation(7), "bus error");
    assert_eq!(signal_to_explanation(8), "arithmetic exception");
    assert_eq!(
        signal_to_explanation(9),
        "program killed, possibly because of an infinite loop or memory exhaustion"
    );
    assert_eq!(signal_to_explanation(11), "segmentation fault");
    assert_eq!(signal_to_explanation(33), "crash (signal 33)");
}

fn failing_test(description: &str, coefficient: usize, signal: Option<u32>) -> Test {
    Test {
        coefficient,
        description: String::from(description),
        success: false,
        signal,
    }
}

#[test]
fn full_report_rendering() {
    let report = Report {
        grade: 3,
        max_grade: 10,
        explanation: None,
        groups: Some(vec![
            Group {
                grade: 5,
                max_grade: 5,
                description: Some(String::from("Warmup")),
                tests: vec![],
            },
            Group {
                grade: 2,
                max_grade: 5,
                description: Some(String::from("Group A")),
                tests: vec![
                    failing_test("parses empty input", 1, None),
                    Test {
                        coefficient: 1,
                        description: String::from("parses one line"),
                        success: true,
                        signal: None,
                    },
                    failing_test("handles big input", 3, Some(11)),
                ],
            },
            Group {
                grade: 0,
                max_grade: 4,
                description: None,
                tests: vec![failing_test("starts", 1, None)],
            },
        ]),
    };
    let (markdown, grade, max_grade) = report_to_markdown("lab1", &report);
    assert_eq!(grade, 3);
    assert_eq!(max_grade, 10);
    let expected = "## Failed tests report for lab1 (7 failing out of 10)\n\n\
        ### Group A (3 failing out of 5)\n\n\
        Failing tests:\n\n\
        - parses empty input\n\
        - handles big input (coefficient 3) [segmentation fault]\n\
        \n\
        ### *Test group* (all 4 failing)\n\n\n";
    assert_eq!(markdown, expected);
    // the fully-passing group is left out of the body
    assert!(!markdown.contains("Warmup"));
}

#[test]
fn report_without_groups_field() {
    let report = Report {
        grade: 0,
        max_grade: 0,
        explanation: None,
        groups: None,
    };
    let (markdown, _, _) = report_to_markdown("lab2", &report);
    assert_eq!(markdown, "## Failed tests report for lab2 (all 0 passing)\n\n");
}

#[test]
fn explanation_renders_verbatim_and_alone() {
    let report = Report {
        grade: 0,
        max_grade: 100,
        explanation: Some(String::from("could not clone the repository")),
        groups: Some(vec![Group {
            grade: 0,
            max_grade: 100,
            description: Some(String::from("Should not appear")),
            tests: vec![],
        }]),
    };
    let (markdown, grade, max_grade) = report_to_markdown("lab3", &report);
    assert_eq!(grade, 0);
    assert_eq!(max_grade, 100);
    assert_eq!(
        markdown,
        "## Error\n\nThere has been an error during the test for lab3:\n\n\
         ```\ncould not clone the repository\n```"
    );
    assert!(markdown.contains("could not clone the repository"));
    assert!(!markdown.contains("###"));
    assert!(!markdown.contains("Should not appear"));
}

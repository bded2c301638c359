use turingarena::award::Score;
use turingarena::material::{
    attachment_at_path, attachment_with_type, caption, cols, generate_material, row_of,
    statement_media_type, statement_of, statements_dir, submission_form, subtasks_of,
    testcases_of, CellContent, ColContent, MemoryUsage, Section, SubtaskInfo, Task, TestcaseInfo,
    TimeUsage,
};

fn subtask(id: u32, max: i64, tcs: &[u32]) -> SubtaskInfo {
    SubtaskInfo {
        id,
        max_score: Score(max),
        testcases: tcs.iter().map(|&id| TestcaseInfo { id }).collect(),
    }
}

fn two_by_three() -> Task {
    Task {
        name: "sum".to_string(),
        title: "Sum of two numbers".to_string(),
        time_limit: Some(1500),
        memory_limit: Some(256),
        subtasks: vec![subtask(2, 0, &[6, 4, 5]), subtask(1, 40_000_000, &[3, 1, 2])],
    }
}

fn cell_key(c: &CellContent) -> String {
    match c {
        CellContent::Score { key, .. } => key.0.clone(),
        _ => panic!("not a score cell"),
    }
}

#[test]
fn two_subtasks_three_testcases_give_six_ordered_rows() {
    let task = two_by_three();
    let m = generate_material(&task, vec![], vec![]);
    let Section::Table(t) = &m.feedback[0];
    assert_eq!(t.rows.len(), 6);
    let expected: Vec<(&str, u32)> = vec![
        ("subtask.1.score", 1),
        ("subtask.1.score", 2),
        ("subtask.1.score", 3),
        ("subtask.2.badge", 4),
        ("subtask.2.badge", 5),
        ("subtask.2.badge", 6),
    ];
    for (row, (award, tc)) in t.rows.iter().zip(expected) {
        match &row.cells[0].content {
            CellContent::AwardReference { award_name } => assert_eq!(award_name.0, award),
            _ => panic!("first cell is not an award reference"),
        }
        match &row.cells[1].content {
            CellContent::RowNumber { number } => assert_eq!(*number, tc),
            _ => panic!("second cell is not a row number"),
        }
        assert_eq!(cell_key(&row.cells[5].content), format!("testcase.{}.score", tc));
    }
    assert_eq!(m.awards.len(), 2);
    assert_eq!(m.awards[0].name.0, "subtask.1.score");
    assert_eq!(m.awards[1].name.0, "subtask.2.badge");
    assert_eq!(m.title[0].value, "Sum of two numbers");
    assert_eq!(m.title[1].value, "sum");
}

#[test]
fn subtasks_and_testcases_are_sorted_by_id() {
    let task = two_by_three();
    assert_eq!(subtasks_of(&task), vec![1, 0]);
    assert_eq!(testcases_of(&task.subtasks[0]), vec![1, 2, 0]);
    let empty = Task { subtasks: vec![], ..two_by_three() };
    assert_eq!(subtasks_of(&empty), Vec::<usize>::new());
    let m = generate_material(&empty, vec![], vec![]);
    assert!(m.awards.is_empty());
    let Section::Table(t) = &m.feedback[0];
    assert!(t.rows.is_empty());
}

#[test]
fn row_keys_and_limits() {
    let task = two_by_three();
    let row = row_of(&task, &task.subtasks[1], &TestcaseInfo { id: 17 });
    assert_eq!(row.cells.len(), 6);
    match &row.cells[2].content {
        CellContent::TimeUsage { max_relevant, primary_watermark, key, valence_key } => {
            assert_eq!(*max_relevant, TimeUsage(1500));
            assert_eq!(*primary_watermark, Some(TimeUsage(1500)));
            assert_eq!(key.0, "testcase.17.time_usage");
            assert_eq!(valence_key.as_ref().unwrap().0, "testcase.17.time_usage_valence");
        }
        _ => panic!("third cell is not a time usage"),
    }
    match &row.cells[3].content {
        CellContent::MemoryUsage { max_relevant, primary_watermark, key, valence_key } => {
            assert_eq!(*max_relevant, MemoryUsage(256 * 1024 * 1024 * 2));
            assert_eq!(*primary_watermark, Some(MemoryUsage(256 * 1024 * 1024)));
            assert_eq!(key.0, "testcase.17.memory_usage");
            assert_eq!(valence_key.as_ref().unwrap().0, "testcase.17.memory_usage_valence");
        }
        _ => panic!("fourth cell is not a memory usage"),
    }
    match &row.cells[4].content {
        CellContent::Message { key, valence_key } => {
            assert_eq!(key.0, "testcase.17.message");
            assert_eq!(valence_key.as_ref().unwrap().0, "testcase.17.valence");
        }
        _ => panic!("fifth cell is not a message"),
    }
    match &row.cells[5].content {
        CellContent::Score { range, key } => {
            assert_eq!(range.precision, 2);
            assert_eq!(range.max, Score(1_000_000));
            assert_eq!(key.0, "testcase.17.score");
        }
        _ => panic!("sixth cell is not a score"),
    }
}

#[test]
fn limits_default_without_configuration() {
    let task = Task { time_limit: None, memory_limit: None, ..two_by_three() };
    let row = row_of(&task, &task.subtasks[0], &TestcaseInfo { id: 0 });
    match &row.cells[2].content {
        CellContent::TimeUsage { max_relevant, primary_watermark, key, .. } => {
            assert_eq!(*max_relevant, TimeUsage(10_000));
            assert_eq!(*primary_watermark, None);
            assert_eq!(key.0, "testcase.0.time_usage");
        }
        _ => panic!("third cell is not a time usage"),
    }
    match &row.cells[3].content {
        CellContent::MemoryUsage { max_relevant, primary_watermark, .. } => {
            assert_eq!(*max_relevant, MemoryUsage(2_147_483_648));
            assert_eq!(*primary_watermark, None);
        }
        _ => panic!("fourth cell is not a memory usage"),
    }
}

#[test]
fn fixed_columns_caption_and_form() {
    let c = cols();
    let titles: Vec<&str> = c.iter().map(|c| c.title[0].value.as_str()).collect();
    assert_eq!(titles, vec!["Subtask", "Case", "Time usage", "Memory usage", "Message", "Score"]);
    assert_eq!(c[0].content, ColContent::AwardReference);
    assert_eq!(c[4].content, ColContent::Message);
    assert_eq!(caption()[0].value, "Test case results");
    let f = submission_form();
    assert_eq!(f.fields.len(), 1);
    assert_eq!(f.fields[0].id, "solution");
    assert_eq!(f.fields[0].types[0].id, "cpp");
    assert_eq!(f.fields[0].types[0].extensions, vec![".cpp".to_string(), ".cc".to_string()]);
    assert_eq!(f.fields[0].types[0].primary_extension, ".cpp");
}

#[test]
fn statements_directory_prefers_statement() {
    let dirs = vec!["att".to_string(), "testo".to_string(), "statement".to_string()];
    assert_eq!(statements_dir(&"/p".to_string(), &dirs), Some("/p/statement".to_string()));
    let dirs = vec!["testo".to_string()];
    assert_eq!(statements_dir(&"/p".to_string(), &dirs), Some("/p/testo".to_string()));
    assert_eq!(statements_dir(&"/p".to_string(), &vec!["att".to_string()]), None);
}

#[test]
fn statement_files_by_stem_and_extension() {
    assert_eq!(statement_media_type(&"pdf".to_string()), Some("application/pdf".to_string()));
    assert_eq!(statement_media_type(&"md".to_string()), Some("application/markdown".to_string()));
    assert_eq!(statement_media_type(&"txt".to_string()), None);
    let f = statement_of("testo.html".to_string(), &"testo".to_string(), &"html".to_string(), vec![1, 2])
        .unwrap();
    assert_eq!(f.name, Some("testo.html".to_string()));
    assert_eq!(f.media_type, Some("text/html".to_string()));
    assert_eq!(f.content, vec![1, 2]);
    assert!(statement_of("x.pdf".to_string(), &"x".to_string(), &"pdf".to_string(), vec![]).is_none());
    assert!(
        statement_of("statement.txt".to_string(), &"statement".to_string(), &"txt".to_string(), vec![])
            .is_none()
    );
}

#[test]
fn attachments_get_a_guessed_media_type() {
    let a = attachment_at_path("manual.pdf".to_string(), vec![7]);
    assert_eq!(a.title[0].value, "manual.pdf");
    assert_eq!(a.file[0].name, Some("manual.pdf".to_string()));
    assert_eq!(a.file[0].media_type, Some("application/pdf".to_string()));
    assert_eq!(a.file[0].content, vec![7]);
    let b = attachment_at_path("data".to_string(), vec![]);
    assert_eq!(b.file[0].media_type, None);
    let c = attachment_with_type("x.bin".to_string(), Some("a/b".to_string()), vec![]);
    assert_eq!(c.file[0].media_type, Some("a/b".to_string()));
}

#[test]
fn task_validity() {
    assert!(two_by_three().is_valid());
    let repeated = Task { subtasks: vec![subtask(1, 0, &[]), subtask(1, 0, &[])], ..two_by_three() };
    assert!(!repeated.is_valid());
    let repeated_case = Task { subtasks: vec![subtask(1, 0, &[2, 2])], ..two_by_three() };
    assert!(!repeated_case.is_valid());
    let huge = Task { memory_limit: Some(1_000_000_001), ..two_by_three() };
    assert!(!huge.is_valid());
}

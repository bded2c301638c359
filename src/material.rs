use vstd::prelude::*;

use crate::award::{Award, AwardContent, AwardName, Score, ScoreAwardContent, ScoreRange, SCORE_UNIT};
use crate::order::{all_distinct, distinct_ids, id_order, sorted_positions};
use crate::text::{
    decimal, is_long_short_text, is_plain_text, long_short_text, numbered, plain_text, Text,
    VariantAttribute,
};

verus! {

/// Time, in milliseconds.
#[derive(Clone, Copy, Debug, PartialEq, Eq, Structural)]
pub struct TimeUsage(pub u64);

/// Memory, in bytes.
#[derive(Clone, Copy, Debug, PartialEq, Eq, Structural)]
pub struct MemoryUsage(pub u64);

/// A reference to a value that the evaluation of a submission will produce.
pub struct Key(pub String);

/// Time shown for a test case when the problem sets no time limit: ten seconds.
pub const DEFAULT_TIME_LIMIT_MS: u64 = 10_000;

/// Memory limit assumed when the problem sets none, in MiB.
pub const DEFAULT_MEMORY_LIMIT_MIB: u64 = 1024;

/// Largest memory limit a problem may set, in MiB.
pub const MAX_MEMORY_LIMIT_MIB: u64 = 1_000_000_000;

/// Bytes in one MiB.
pub const MIB: u64 = 1_048_576;

/// A test case of a problem.
pub struct TestcaseInfo {
    pub id: u32,
}

/// A subtask of a problem: a group of test cases worth up to `max_score`.
pub struct SubtaskInfo {
    pub id: u32,
    pub max_score: Score,
    pub testcases: Vec<TestcaseInfo>,
}

/// The static definition of a problem.
pub struct Task {
    /// Short name of the problem
    pub name: String,
    /// Title of the problem, as shown to users
    pub title: String,
    /// Time limit per test case, in milliseconds
    pub time_limit: Option<u64>,
    /// Memory limit per test case, in MiB
    pub memory_limit: Option<u64>,
    pub subtasks: Vec<SubtaskInfo>,
}

pub open spec fn subtask_ids(task: Task) -> Seq<u32> {
    task.subtasks@.map_values(|s: SubtaskInfo| s.id)
}

pub open spec fn testcase_ids(subtask: SubtaskInfo) -> Seq<u32> {
    subtask.testcases@.map_values(|t: TestcaseInfo| t.id)
}

impl Task {
    /// Subtask ids are distinct, test case ids within a subtask are distinct,
    /// and the memory limit is at most `MAX_MEMORY_LIMIT_MIB`.
    pub open spec fn wf(&self) -> bool {
        &&& distinct_ids(subtask_ids(*self))
        &&& forall|s: int|
            0 <= s < self.subtasks@.len() ==> distinct_ids(#[trigger] testcase_ids(self.subtasks@[s]))
        &&& match self.memory_limit {
            Some(l) => l <= MAX_MEMORY_LIMIT_MIB,
            None => true,
        }
    }
}

/// What a column of the feedback table shows.
#[derive(Clone, Copy, Debug, PartialEq, Eq, Structural)]
pub enum ColContent {
    AwardReference,
    RowNumber,
    TimeUsage,
    MemoryUsage,
    Message,
    Score(ScoreRange),
}

/// A column of the feedback table.
pub struct Col {
    pub title: Text,
    pub content: ColContent,
}

/// What a cell of the feedback table shows; keys are resolved at render time.
#[allow(inconsistent_fields)]
pub enum CellContent {
    AwardReference { award_name: AwardName },
    RowNumber { number: u32 },
    TimeUsage {
        max_relevant: TimeUsage,
        primary_watermark: Option<TimeUsage>,
        key: Key,
        valence_key: Option<Key>,
    },
    MemoryUsage {
        max_relevant: MemoryUsage,
        primary_watermark: Option<MemoryUsage>,
        key: Key,
        valence_key: Option<Key>,
    },
    Message { key: Key, valence_key: Option<Key> },
    Score { range: ScoreRange, key: Key },
}

/// A cell of the feedback table.
pub struct Cell {
    pub content: CellContent,
}

/// A row of the feedback table: one cell per column.
pub struct Row {
    pub cells: Vec<Cell>,
}

/// A table of feedback.
pub struct TableSection {
    pub caption: Text,
    pub cols: Vec<Col>,
    pub rows: Vec<Row>,
}

/// A section of the feedback of a problem.
pub enum Section {
    Table(TableSection),
}

/// The name of the award of a subtask.
pub open spec fn award_name_of(subtask: SubtaskInfo) -> Seq<char> {
    "subtask."@ + decimal(subtask.id as nat) + (if subtask.max_score.0 > 0 {
        ".score"@
    } else {
        ".badge"@
    })
}

/// The domain of the award of a subtask: a score up to its maximum when that
/// is positive, a badge otherwise.
pub open spec fn award_content_of(subtask: SubtaskInfo) -> AwardContent {
    if subtask.max_score.0 > 0 {
        AwardContent::Score(
            ScoreAwardContent {
                range: ScoreRange { precision: 0, max: subtask.max_score, allow_partial: true },
            },
        )
    } else {
        AwardContent::Badge
    }
}

/// `award` is the award of the subtask.
pub open spec fn is_award_of(award: Award, subtask: SubtaskInfo) -> bool {
    &&& award.name.0@ == award_name_of(subtask)
    &&& is_long_short_text(
        award.title,
        "Subtask "@ + decimal(subtask.id as nat),
        "ST "@ + decimal(subtask.id as nat),
    )
    &&& award.content == award_content_of(subtask)
}

/// Derives the award of a subtask.
pub fn award_of(subtask: &SubtaskInfo) -> (r: Award)
    ensures
        is_award_of(r, *subtask),
{
    let has_positive_score = subtask.max_score.0 > 0;
    let name = if has_positive_score {
        numbered("subtask.", subtask.id, ".score")
    } else {
        numbered("subtask.", subtask.id, ".badge")
    };
    let title = long_short_text(numbered("Subtask ", subtask.id, ""), numbered("ST ", subtask.id, ""));
    proof {
        reveal_strlit("");
        assert(("Subtask "@ + decimal(subtask.id as nat) + ""@) =~= "Subtask "@ + decimal(subtask.id as nat));
        assert(("ST "@ + decimal(subtask.id as nat) + ""@) =~= "ST "@ + decimal(subtask.id as nat));
    }
    let content = if has_positive_score {
        AwardContent::Score(
            ScoreAwardContent {
                range: ScoreRange { precision: 0, max: subtask.max_score, allow_partial: true },
            },
        )
    } else {
        AwardContent::Badge
    };
    Award { name: AwardName(name), title, content }
}

/// The range of the score of a single test case: up to one point, two decimal places.
pub open spec fn testcase_score_range() -> ScoreRange {
    ScoreRange { precision: 2, max: Score(SCORE_UNIT), allow_partial: true }
}

/// The fixed columns of the feedback table.
pub open spec fn are_feedback_cols(cols: Seq<Col>) -> bool {
    &&& cols.len() == 6
    &&& is_plain_text(cols[0].title, "Subtask"@) && cols[0].content == ColContent::AwardReference
    &&& is_plain_text(cols[1].title, "Case"@) && cols[1].content == ColContent::RowNumber
    &&& is_plain_text(cols[2].title, "Time usage"@) && cols[2].content == ColContent::TimeUsage
    &&& is_plain_text(cols[3].title, "Memory usage"@) && cols[3].content == ColContent::MemoryUsage
    &&& is_plain_text(cols[4].title, "Message"@) && cols[4].content == ColContent::Message
    &&& is_plain_text(cols[5].title, "Score"@) && cols[5].content == ColContent::Score(
        testcase_score_range(),
    )
}

/// The columns of the feedback table: award, case number, time, memory, message, score.
pub fn cols() -> (r: Vec<Col>)
    ensures
        are_feedback_cols(r@),
{
    vec![
        Col { title: plain_text("Subtask"), content: ColContent::AwardReference },
        Col { title: plain_text("Case"), content: ColContent::RowNumber },
        Col { title: plain_text("Time usage"), content: ColContent::TimeUsage },
        Col { title: plain_text("Memory usage"), content: ColContent::MemoryUsage },
        Col { title: plain_text("Message"), content: ColContent::Message },
        Col {
            title: plain_text("Score"),
            content: ColContent::Score(
                ScoreRange { precision: 2, max: Score(SCORE_UNIT), allow_partial: true },
            ),
        },
    ]
}

/// The caption of the feedback table.
pub fn caption() -> (r: Text)
    ensures
        is_plain_text(r, "Test case results"@),
{
    plain_text("Test case results")
}

/// The key of a value of a test case: `testcase.<id><suffix>`.
pub open spec fn testcase_key(id: u32, suffix: Seq<char>) -> Seq<char> {
    "testcase."@ + decimal(id as nat) + suffix
}

/// The bound up to which time usages are drawn: the time limit, or ten seconds.
pub open spec fn time_max_relevant(task: Task) -> u64 {
    match task.time_limit {
        Some(l) => l,
        None => DEFAULT_TIME_LIMIT_MS,
    }
}

/// The bound up to which memory usages are drawn: twice the memory limit,
/// or twice 1 GiB.
pub open spec fn memory_max_relevant(task: Task) -> int {
    match task.memory_limit {
        Some(l) => l * MIB * 2,
        None => DEFAULT_MEMORY_LIMIT_MIB * MIB * 2,
    }
}

/// The key is `Some`, with the given text.
pub open spec fn is_some_key(k: Option<Key>, s: Seq<char>) -> bool {
    match k {
        Some(key) => key.0@ == s,
        None => false,
    }
}

/// `row` is the feedback row of test case `testcase` of subtask `subtask` of `task`.
pub open spec fn is_row_of(row: Row, task: Task, subtask: SubtaskInfo, testcase: TestcaseInfo) -> bool {
    let c = row.cells@;
    let id = testcase.id;
    &&& c.len() == 6
    &&& c[0].content is AwardReference
    &&& c[0].content->AwardReference_award_name.0@ == award_name_of(subtask)
    &&& c[1].content == (CellContent::RowNumber { number: id })
    &&& c[2].content is TimeUsage
    &&& c[2].content->TimeUsage_max_relevant == TimeUsage(time_max_relevant(task))
    &&& c[2].content->TimeUsage_primary_watermark == match task.time_limit {
        Some(l) => Some(TimeUsage(l)),
        None => None,
    }
    &&& c[2].content->TimeUsage_key.0@ == testcase_key(id, ".time_usage"@)
    &&& is_some_key(c[2].content->TimeUsage_valence_key, testcase_key(id, ".time_usage_valence"@))
    &&& c[3].content is MemoryUsage
    &&& c[3].content->MemoryUsage_max_relevant.0 == memory_max_relevant(task)
    &&& c[3].content->MemoryUsage_primary_watermark == match task.memory_limit {
        Some(l) => Some(MemoryUsage((l * MIB) as u64)),
        None => None,
    }
    &&& c[3].content->MemoryUsage_key.0@ == testcase_key(id, ".memory_usage"@)
    &&& is_some_key(c[3].content->MemoryUsage_valence_key, testcase_key(id, ".memory_usage_valence"@))
    &&& c[4].content is Message
    &&& c[4].content->Message_key.0@ == testcase_key(id, ".message"@)
    &&& is_some_key(c[4].content->Message_valence_key, testcase_key(id, ".valence"@))
    &&& c[5].content is Score
    &&& c[5].content->Score_range == testcase_score_range()
    &&& c[5].content->Score_key.0@ == testcase_key(id, ".score"@)
}

fn testcase_key_of(id: u32, suffix: &str) -> (r: Key)
    ensures
        r.0@ == testcase_key(id, suffix@),
{
    Key(numbered("testcase.", id, suffix))
}

/// Builds the feedback row of a test case of a subtask.
pub fn row_of(task: &Task, subtask: &SubtaskInfo, testcase: &TestcaseInfo) -> (r: Row)
    requires
        task.wf(),
    ensures
        is_row_of(r, *task, *subtask, *testcase),
{
    let id = testcase.id;
    let time_limit = match task.time_limit {
        Some(l) => l,
        None => DEFAULT_TIME_LIMIT_MS,
    };
    let time_watermark = match task.time_limit {
        Some(l) => Some(TimeUsage(l)),
        None => None,
    };
    let memory_limit = match task.memory_limit {
        Some(l) => l,
        None => DEFAULT_MEMORY_LIMIT_MIB,
    };
    let memory_watermark = match task.memory_limit {
        Some(l) => Some(MemoryUsage(l * MIB)),
        None => None,
    };
    let cells = vec![
        Cell { content: CellContent::AwardReference { award_name: award_of(subtask).name } },
        Cell { content: CellContent::RowNumber { number: id } },
        Cell {
            content: CellContent::TimeUsage {
                max_relevant: TimeUsage(time_limit),
                primary_watermark: time_watermark,
                key: testcase_key_of(id, ".time_usage"),
                valence_key: Some(testcase_key_of(id, ".time_usage_valence")),
            },
        },
        Cell {
            content: CellContent::MemoryUsage {
                max_relevant: MemoryUsage(memory_limit * MIB * 2),
                primary_watermark: memory_watermark,
                key: testcase_key_of(id, ".memory_usage"),
                valence_key: Some(testcase_key_of(id, ".memory_usage_valence")),
            },
        },
        Cell {
            content: CellContent::Message {
                key: testcase_key_of(id, ".message"),
                valence_key: Some(testcase_key_of(id, ".valence")),
            },
        },
        Cell {
            content: CellContent::Score {
                range: ScoreRange { precision: 2, max: Score(SCORE_UNIT), allow_partial: true },
                key: testcase_key_of(id, ".score"),
            },
        },
    ];
    Row { cells }
}

/// A kind of file that a submission field accepts.
pub struct FileType {
    pub id: String,
    pub title: Text,
    pub extensions: Vec<String>,
    pub primary_extension: String,
}

/// A field of the submission form.
pub struct Field {
    pub id: String,
    pub title: Text,
    pub types: Vec<FileType>,
}

/// The form through which solutions are submitted.
pub struct Form {
    pub fields: Vec<Field>,
}

/// A file, possibly one of several variants of a document.
pub struct FileVariant {
    pub attributes: Vec<VariantAttribute>,
    pub name: Option<String>,
    pub media_type: Option<String>,
    pub content: Vec<u8>,
}

/// A file attached to a problem.
pub struct Attachment {
    pub title: Text,
    pub file: Vec<FileVariant>,
}

/// Everything shown of a problem: title, statements, attachments, the
/// submission form, the awards and the feedback layout.
pub struct Material {
    pub title: Text,
    pub statement: Vec<FileVariant>,
    pub attachments: Vec<Attachment>,
    pub submission_form: Form,
    pub awards: Vec<Award>,
    pub feedback: Vec<Section>,
}

/// The form has one field, `solution`, that takes a C++ file.
pub open spec fn is_submission_form(f: Form) -> bool {
    &&& f.fields@.len() == 1
    &&& f.fields@[0].id@ == "solution"@
    &&& is_plain_text(f.fields@[0].title, "Solution"@)
    &&& f.fields@[0].types@.len() == 1
    &&& f.fields@[0].types@[0].id@ == "cpp"@
    &&& is_plain_text(f.fields@[0].types@[0].title, "C++"@)
    &&& f.fields@[0].types@[0].extensions@.len() == 2
    &&& f.fields@[0].types@[0].extensions@[0]@ == ".cpp"@
    &&& f.fields@[0].types@[0].extensions@[1]@ == ".cc"@
    &&& f.fields@[0].types@[0].primary_extension@ == ".cpp"@
}

/// The submission form of a problem: a single C++ source file.
pub fn submission_form() -> (r: Form)
    ensures
        is_submission_form(r),
{
    proof {
        reveal_strlit("solution");
        reveal_strlit("cpp");
        reveal_strlit(".cpp");
        reveal_strlit(".cc");
    }
    let cpp = FileType {
        id: String::from_str("cpp"),
        title: plain_text("C++"),
        extensions: vec![String::from_str(".cpp"), String::from_str(".cc")],
        primary_extension: String::from_str(".cpp"),
    };
    Form {
        fields: vec![
            Field { id: String::from_str("solution"), title: plain_text("Solution"), types: vec![cpp] },
        ],
    }
}

fn contains_name(names: &Vec<String>, name: &String) -> (r: bool)
    ensures
        r == names@.map_values(|n: String| n@).contains(name@),
{
    let ghost views = names@.map_values(|n: String| n@);
    let mut i: usize = 0;
    while i < names.len()
        invariant
            i <= names@.len(),
            views == names@.map_values(|n: String| n@),
            forall|j: int| 0 <= j < i ==> views[j] != name@,
        decreases names@.len() - i,
    {
        if names[i] == *name {
            assert(views[i as int] == name@);
            return true;
        }
        i = i + 1;
    }
    false
}

/// Finds the statements directory of a task in the italy_yaml format: the
/// subdirectory `statement`, else `testo`, among the task's subdirectories.
pub fn statements_dir(task_dir: &String, subdirs: &Vec<String>) -> (r: Option<String>)
    ensures
        ({
            let names = subdirs@.map_values(|n: String| n@);
            if names.contains("statement"@) {
                r is Some && r->0@ == task_dir@ + "/statement"@
            } else if names.contains("testo"@) {
                r is Some && r->0@ == task_dir@ + "/testo"@
            } else {
                r is None
            }
        }),
{
    let statement = String::from_str("statement");
    let testo = String::from_str("testo");
    proof {
        reveal_strlit("statement");
        reveal_strlit("testo");
    }
    if contains_name(subdirs, &statement) {
        Some(task_dir.clone().concat("/statement"))
    } else if contains_name(subdirs, &testo) {
        Some(task_dir.clone().concat("/testo"))
    } else {
        None
    }
}

/// The media type of a statement file with the given extension, if it is one
/// that statements come in.
pub open spec fn statement_media_type_of(ext: Seq<char>) -> Option<Seq<char>> {
    if ext == "pdf"@ {
        Some("application/pdf"@)
    } else if ext == "html"@ {
        Some("text/html"@)
    } else if ext == "md"@ {
        Some("application/markdown"@)
    } else {
        None
    }
}

/// The media type of a statement file with the given extension.
pub fn statement_media_type(ext: &String) -> (r: Option<String>)
    ensures
        match r {
            Some(t) => statement_media_type_of(ext@) == Some(t@),
            None => statement_media_type_of(ext@) is None,
        },
{
    proof {
        reveal_strlit("pdf");
        reveal_strlit("html");
        reveal_strlit("md");
        reveal_strlit("application/pdf");
        reveal_strlit("text/html");
        reveal_strlit("application/markdown");
    }
    if *ext == String::from_str("pdf") {
        Some(String::from_str("application/pdf"))
    } else if *ext == String::from_str("html") {
        Some(String::from_str("text/html"))
    } else if *ext == String::from_str("md") {
        Some(String::from_str("application/markdown"))
    } else {
        None
    }
}

/// Makes the statement variant of a file of the statements directory, given
/// its name, stem, extension and content: only files whose stem is
/// `statement` or `testo` and whose extension is a statement format count.
pub fn statement_of(name: String, stem: &String, ext: &String, content: Vec<u8>) -> (r: Option<
    FileVariant,
>)
    ensures
        (stem@ == "statement"@ || stem@ == "testo"@) && statement_media_type_of(ext@) is Some
            <==> r is Some,
        r is Some ==> {
            let f = r->0;
            &&& f.attributes@.len() == 0
            &&& f.name is Some && f.name->0@ == name@
            &&& f.media_type is Some && Some(f.media_type->0@) == statement_media_type_of(ext@)
            &&& f.content@ == content@
        },
{
    proof {
        reveal_strlit("statement");
        reveal_strlit("testo");
    }
    if *stem != String::from_str("statement") && *stem != String::from_str("testo") {
        return None;
    }
    match statement_media_type(ext) {
        Some(t) => Some(
            FileVariant { attributes: Vec::new(), name: Some(name), media_type: Some(t), content },
        ),
        None => None,
    }
}

/// The media type that mime_guess associates with a file name's extension.
pub uninterp spec fn guessed_media_type(file_name: Seq<char>) -> Option<Seq<char>>;

/// Relies on `mime_guess::from_path(..).first_raw()`: the first media type
/// registered for the extension of the file name, if there is one.
#[verifier::external_body]
fn guess_media_type(file_name: &String) -> (r: Option<String>)
    ensures
        match r {
            Some(t) => guessed_media_type(file_name@) == Some(t@),
            None => guessed_media_type(file_name@) is None,
        },
{
    mime_guess::from_path(file_name.as_str()).first_raw().map(String::from)
}

/// The attachment is the file with the given name, media type and content.
pub open spec fn is_attachment(
    a: Attachment,
    file_name: Seq<char>,
    media_type: Option<Seq<char>>,
    content: Seq<u8>,
) -> bool {
    &&& is_plain_text(a.title, file_name)
    &&& a.file@.len() == 1
    &&& a.file@[0].attributes@.len() == 0
    &&& a.file@[0].name is Some && a.file@[0].name->0@ == file_name
    &&& match a.file@[0].media_type {
        Some(t) => media_type == Some(t@),
        None => media_type is None,
    }
    &&& a.file@[0].content@ == content
}

/// Makes the attachment of a file, whose media type is already known.
pub fn attachment_with_type(file_name: String, media_type: Option<String>, content: Vec<u8>) -> (r:
    Attachment)
    ensures
        is_attachment(
            r,
            file_name@,
            match media_type {
                Some(t) => Some(t@),
                None => None,
            },
            content@,
        ),
{
    let title = vec![
        crate::text::TextVariant { attributes: Vec::new(), value: file_name.clone() },
    ];
    let file = vec![
        FileVariant { attributes: Vec::new(), name: Some(file_name), media_type, content },
    ];
    Attachment { title, file }
}

/// Makes the attachment of a file, titled by its name, with the media type
/// that its extension suggests.
pub fn attachment_at_path(file_name: String, content: Vec<u8>) -> (r: Attachment)
    ensures
        is_attachment(r, file_name@, guessed_media_type(file_name@), content@),
{
    let media_type = guess_media_type(&file_name);
    attachment_with_type(file_name, media_type, content)
}

/// The subtasks of a task, as positions in `task.subtasks`, by increasing id.
pub fn subtasks_of(task: &Task) -> (r: Vec<usize>)
    requires
        task.wf(),
    ensures
        r@ == id_order(subtask_ids(*task)),
        crate::order::is_id_order(subtask_ids(*task), r@),
{
    sorted_positions(&ids_of_subtasks(task))
}

/// The test cases of a subtask, as positions in `subtask.testcases`, by increasing id.
pub fn testcases_of(subtask: &SubtaskInfo) -> (r: Vec<usize>)
    requires
        distinct_ids(testcase_ids(*subtask)),
    ensures
        r@ == id_order(testcase_ids(*subtask)),
        crate::order::is_id_order(testcase_ids(*subtask), r@),
{
    sorted_positions(&ids_of_testcases(subtask))
}

/// The (subtask, test case) positions of the rows of one subtask, by test case id.
pub open spec fn subtask_rows(task: Task, s: usize) -> Seq<(usize, usize)> {
    id_order(testcase_ids(task.subtasks@[s as int])).map_values(|t: usize| (s, t))
}

/// The rows of the subtasks listed in `order`, one after another.
pub open spec fn rows_of_subtasks(task: Task, order: Seq<usize>) -> Seq<(usize, usize)> {
    order.map_values(|s: usize| subtask_rows(task, s)).flatten()
}

/// The (subtask, test case) positions of the feedback rows: subtasks by id,
/// and within each subtask its test cases by id.
pub open spec fn feedback_rows(task: Task) -> Seq<(usize, usize)> {
    rows_of_subtasks(task, id_order(subtask_ids(task)))
}

/// `row` is the row of the test case at position `p` of the task.
pub open spec fn is_row_at(row: Row, task: Task, p: (usize, usize)) -> bool {
    let st = task.subtasks@[p.0 as int];
    is_row_of(row, task, st, st.testcases@[p.1 as int])
}

/// The feedback table of the task: its caption, the fixed columns, and one
/// row per test case in the canonical order.
pub open spec fn is_feedback_table(t: TableSection, task: Task) -> bool {
    &&& is_plain_text(t.caption, "Test case results"@)
    &&& are_feedback_cols(t.cols@)
    &&& t.rows@.len() == feedback_rows(task).len()
    &&& forall|i: int| 0 <= i < t.rows@.len() ==> #[trigger] is_row_at(t.rows@[i], task, feedback_rows(task)[i])
}

/// Generates the material of a task. The statements and attachments, read
/// from the task's directory, are handed in as they are; the awards are
/// those of the subtasks by increasing id; the feedback is one table with a
/// row per test case, by subtask id and then by test case id.
pub fn generate_material(task: &Task, statement: Vec<FileVariant>, attachments: Vec<Attachment>) -> (r:
    Material)
    requires
        task.wf(),
    ensures
        is_long_short_text(r.title, task.title@, task.name@),
        r.statement == statement,
        r.attachments == attachments,
        is_submission_form(r.submission_form),
        r.awards@.len() == id_order(subtask_ids(*task)).len(),
        forall|j: int|
            0 <= j < r.awards@.len() ==> #[trigger] is_award_of(
                r.awards@[j],
                task.subtasks@[id_order(subtask_ids(*task))[j] as int],
            ),
        r.feedback@.len() == 1,
        r.feedback@[0] is Table,
        is_feedback_table(r.feedback@[0]->Table_0, *task),
{
    let order = subtasks_of(task);
    let ghost o = order@;
    let mut awards: Vec<Award> = Vec::new();
    let mut rows: Vec<Row> = Vec::new();
    let mut j: usize = 0;
    while j < order.len()
        invariant
            task.wf(),
            o == order@,
            o == id_order(subtask_ids(*task)),
            crate::order::is_id_order(subtask_ids(*task), o),
            j <= o.len(),
            awards@.len() == j,
            forall|k: int| 0 <= k < j ==> #[trigger] is_award_of(awards@[k], task.subtasks@[o[k] as int]),
            rows@.len() == rows_of_subtasks(*task, o.take(j as int)).len(),
            forall|i: int|
                0 <= i < rows@.len() ==> #[trigger] is_row_at(
                    rows@[i],
                    *task,
                    rows_of_subtasks(*task, o.take(j as int))[i],
                ),
        decreases o.len() - j,
    {
        let s = order[j];
        assert(s < task.subtasks@.len());
        let subtask = &task.subtasks[s];
        awards.push(award_of(subtask));
        assert(distinct_ids(testcase_ids(task.subtasks@[s as int])));
        let tord = testcases_of(subtask);
        let ghost to = tord@;
        let ghost base = rows@.len();
        let ghost done = rows_of_subtasks(*task, o.take(j as int));
        let mut x: usize = 0;
        while x < tord.len()
            invariant
                task.wf(),
                s < task.subtasks@.len(),
                subtask == &task.subtasks@[s as int],
                to == tord@,
                to == id_order(testcase_ids(*subtask)),
                crate::order::is_id_order(testcase_ids(*subtask), to),
                x <= to.len(),
                rows@.len() == base + x,
                base == done.len(),
                forall|i: int| 0 <= i < base ==> #[trigger] is_row_at(rows@[i], *task, done[i]),
                forall|i: int|
                    base <= i < base + x ==> #[trigger] is_row_at(
                        rows@[i],
                        *task,
                        subtask_rows(*task, s)[i - base],
                    ),
            decreases to.len() - x,
        {
            let t = tord[x];
            assert(t < subtask.testcases@.len());
            rows.push(row_of(task, subtask, &subtask.testcases[t]));
            assert(subtask_rows(*task, s)[x as int] == (s, t));
            x = x + 1;
        }
        proof {
            let sr = subtask_rows(*task, s);
            assert(o.take(j + 1).map_values(|s: usize| subtask_rows(*task, s)) =~= o.take(
                j as int,
            ).map_values(|s: usize| subtask_rows(*task, s)).push(sr));
            o.take(j as int).map_values(|s: usize| subtask_rows(*task, s)).lemma_flatten_push(sr);
            let all = rows_of_subtasks(*task, o.take(j + 1));
            assert(all =~= done + sr);
            assert forall|i: int| 0 <= i < rows@.len() implies #[trigger] is_row_at(
                rows@[i],
                *task,
                all[i],
            ) by {
                if i < base {
                    assert(all[i] == done[i]);
                } else {
                    assert(all[i] == sr[i - base]);
                }
            }
        }
        j = j + 1;
    }
    assert(o.take(j as int) =~= o);
    let table = TableSection { caption: caption(), cols: cols(), rows };
    Material {
        title: long_short_text(task.title.clone(), task.name.clone()),
        statement,
        attachments,
        submission_form: submission_form(),
        awards,
        feedback: vec![Section::Table(table)],
    }
}

fn ids_of_testcases(subtask: &SubtaskInfo) -> (r: Vec<u32>)
    ensures
        r@ == testcase_ids(*subtask),
{
    let mut ids: Vec<u32> = Vec::new();
    let mut i: usize = 0;
    while i < subtask.testcases.len()
        invariant
            i <= subtask.testcases@.len(),
            ids@ == testcase_ids(*subtask).take(i as int),
        decreases subtask.testcases@.len() - i,
    {
        ids.push(subtask.testcases[i].id);
        i = i + 1;
        assert(ids@ =~= testcase_ids(*subtask).take(i as int));
    }
    assert(ids@ =~= testcase_ids(*subtask));
    ids
}

fn ids_of_subtasks(task: &Task) -> (r: Vec<u32>)
    ensures
        r@ == subtask_ids(*task),
{
    let mut ids: Vec<u32> = Vec::new();
    let mut i: usize = 0;
    while i < task.subtasks.len()
        invariant
            i <= task.subtasks@.len(),
            ids@ == subtask_ids(*task).take(i as int),
        decreases task.subtasks@.len() - i,
    {
        ids.push(task.subtasks[i].id);
        i = i + 1;
        assert(ids@ =~= subtask_ids(*task).take(i as int));
    }
    assert(ids@ =~= subtask_ids(*task));
    ids
}

impl Task {
    /// Tells whether the task is well formed: distinct subtask ids, distinct
    /// test case ids within each subtask, a memory limit within bounds.
    pub fn is_valid(&self) -> (r: bool)
        ensures
            r == self.wf(),
    {
        match self.memory_limit {
            Some(l) => {
                if l > MAX_MEMORY_LIMIT_MIB {
                    return false;
                }
            },
            None => {},
        }
        if !all_distinct(&ids_of_subtasks(self)) {
            return false;
        }
        let mut s: usize = 0;
        while s < self.subtasks.len()
            invariant
                s <= self.subtasks@.len(),
                forall|k: int| 0 <= k < s ==> distinct_ids(#[trigger] testcase_ids(self.subtasks@[k])),
            decreases self.subtasks@.len() - s,
        {
            if !all_distinct(&ids_of_testcases(&self.subtasks[s])) {
                return false;
            }
            s = s + 1;
        }
        true
    }
}

} // verus!

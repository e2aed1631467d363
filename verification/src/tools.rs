//! The tools that agents call.

use vstd::prelude::*;
use vstd::string::*;
use crate::common::{Envelope, Event, Message, Sender, UnicError};
use crate::conversation::{
    fnv1a, hex8, law_id_spells_itself, law_seed_gives_a_conversation, spelled_id, valid_id,
    ConversationId,
};
use crate::json::{
    array, fields_model, items_model, law_the_first_field_counts, object, put, Json, JsonModel,
};
use crate::name_map::NameMap;
use crate::path::{inside, join_path};
use crate::stamp::{id_shown, show_id, time_written, write_time};
use crate::text::{blank, same, trim, trimmed};
use vstd::utf8::{
    decode_utf8, encode_utf8, encode_utf8_decode_utf8, encode_utf8_valid_utf8, valid_utf8,
};

verus! {

/// A tool.
pub trait SystemTool {
    /// What the tool is called.
    spec fn called(&self) -> Seq<char>;

    /// What the tool is called.
    fn name(&self) -> (r: &'static str)
        ensures
            r@ == self.called(),
    ;
}

/// The tools that there are, by what they are called.
pub struct ToolRegistry<T> {
    tools: NameMap<T>,
}

impl<T> View for ToolRegistry<T> {
    type V = Map<Seq<char>, T>;

    closed spec fn view(&self) -> Map<Seq<char>, T> {
        self.tools@
    }
}

impl<T> ToolRegistry<T> {
    /// No name stands twice.
    pub closed spec fn wf(&self) -> bool {
        self.tools.wf()
    }

    /// No tools.
    pub fn new() -> (r: ToolRegistry<T>)
        ensures
            r.wf(),
            r@ == Map::<Seq<char>, T>::empty(),
    {
        ToolRegistry { tools: NameMap::new() }
    }

    /// The tool called `name`.
    pub fn get(&self, name: &str) -> (r: Option<&T>)
        requires
            self.wf(),
        ensures
            match r {
                Some(tool) => self@.contains_key(name@) && *tool == self@[name@],
                None => !self@.contains_key(name@),
            },
    {
        self.tools.get(name)
    }

    /// The tool to call for `name`.
    pub fn call(&self, name: &str) -> (r: Result<&T, UnicError>)
        requires
            self.wf(),
        ensures
            match r {
                Ok(tool) => self@.contains_key(name@) && *tool == self@[name@],
                Err(e) => {
                    &&& !self@.contains_key(name@)
                    &&& e matches UnicError::Tool(said)
                    &&& said@ == "unknown tool: "@ + name@
                },
            },
    {
        match self.get(name) {
            Some(tool) => Ok(tool),
            None => Err(UnicError::Tool("unknown tool: ".to_owned().concat(name))),
        }
    }
}

impl<T: SystemTool> ToolRegistry<T> {
    /// Adds a tool, in place of the one that is called the same.
    pub fn register(&mut self, tool: T)
        requires
            old(self).wf(),
        ensures
            final(self).wf(),
            final(self)@ == old(self)@.insert(tool.called(), tool),
    {
        let name = tool.name();
        self.tools.insert(name, tool);
    }
}

/// A shell.
#[derive(Debug)]
pub struct BashExecutor;

/// Files.
#[derive(Debug)]
pub struct FileSystemOperator;

/// The web.
#[derive(Debug)]
pub struct NetRequestTool;

/// Earlier conversations.
#[derive(Debug)]
pub struct ConversationLoader;

impl SystemTool for BashExecutor {
    open spec fn called(&self) -> Seq<char> {
        "bash"@
    }

    fn name(&self) -> (r: &'static str) {
        "bash"
    }
}

impl SystemTool for FileSystemOperator {
    open spec fn called(&self) -> Seq<char> {
        "fs"@
    }

    fn name(&self) -> (r: &'static str) {
        "fs"
    }
}

impl SystemTool for NetRequestTool {
    open spec fn called(&self) -> Seq<char> {
        "net"@
    }

    fn name(&self) -> (r: &'static str) {
        "net"
    }
}

impl SystemTool for ConversationLoader {
    open spec fn called(&self) -> Seq<char> {
        "conv_load"@
    }

    fn name(&self) -> (r: &'static str) {
        "conv_load"
    }
}

/// The tools that every agent has.
#[derive(Debug)]
pub enum BuiltinTool {
    Bash(BashExecutor),
    Files(FileSystemOperator),
    Net(NetRequestTool),
    Conversations(ConversationLoader),
}

impl SystemTool for BuiltinTool {
    open spec fn called(&self) -> Seq<char> {
        match self {
            BuiltinTool::Bash(t) => t.called(),
            BuiltinTool::Files(t) => t.called(),
            BuiltinTool::Net(t) => t.called(),
            BuiltinTool::Conversations(t) => t.called(),
        }
    }

    fn name(&self) -> (r: &'static str) {
        match self {
            BuiltinTool::Bash(t) => t.name(),
            BuiltinTool::Files(t) => t.name(),
            BuiltinTool::Net(t) => t.name(),
            BuiltinTool::Conversations(t) => t.name(),
        }
    }
}

impl ToolRegistry<BuiltinTool> {
    /// The tools that every agent has.
    pub fn with_defaults() -> (r: ToolRegistry<BuiltinTool>)
        ensures
            r.wf(),
            r@ == Map::<Seq<char>, BuiltinTool>::empty().insert(
                "bash"@,
                BuiltinTool::Bash(BashExecutor),
            ).insert("fs"@, BuiltinTool::Files(FileSystemOperator)).insert(
                "net"@,
                BuiltinTool::Net(NetRequestTool),
            ).insert("conv_load"@, BuiltinTool::Conversations(ConversationLoader)),
    {
        let mut reg: ToolRegistry<BuiltinTool> = ToolRegistry::new();
        reg.register(BuiltinTool::Bash(BashExecutor));
        reg.register(BuiltinTool::Files(FileSystemOperator));
        reg.register(BuiltinTool::Net(NetRequestTool));
        reg.register(BuiltinTool::Conversations(ConversationLoader));
        reg
    }
}

/// The text that bytes stand for, with a replacement character for what is no UTF-8.
pub uninterp spec fn lossy(bytes: Seq<u8>) -> Seq<char>;

/// `String::from_utf8_lossy`, which depends on the bytes alone; bytes that are the UTF-8 form
/// of a text give that text.
#[verifier::external_body]
fn text_of(bytes: &[u8]) -> (r: String)
    ensures
        r@ == lossy(bytes@),
        valid_utf8(bytes@) ==> r@ == decode_utf8(bytes@),
{
    String::from_utf8_lossy(bytes).into_owned()
}

/// What the shell is asked to do.
#[derive(Debug)]
pub struct BashArgs {
    pub cmd: String,
    pub timeout_ms: Option<u64>,
    pub cwd: Option<String>,
}

impl BashArgs {
    /// How long the command may take: half a minute, if nothing else is said.
    pub fn time_limit_ms(&self) -> (r: u64)
        ensures
            r == match self.timeout_ms {
                Some(t) => t,
                None => 30_000,
            },
    {
        match self.timeout_ms {
            Some(t) => t,
            None => 30_000,
        }
    }
}

/// What became of a command.
#[derive(Debug)]
pub enum BashOutcome {
    /// It ended.
    Finished { success: bool, exit_code: Option<i32>, stdout: Vec<u8>, stderr: Vec<u8> },
    /// It took too long.
    TimedOut,
    /// It could not be run, for this reason.
    Failed(String),
}

/// What is told of a command that ended, by the texts of what it wrote.
pub open spec fn bash_report(
    success: bool,
    exit_code: Option<i32>,
    stdout: Seq<char>,
    stderr: Seq<char>,
) -> JsonModel {
    JsonModel::Object(
        seq![
            ("status"@, JsonModel::Text(if success { "ok"@ } else { "error"@ })),
            (
                "exit_code"@,
                match exit_code {
                    Some(c) => JsonModel::Integer(c as int),
                    None => JsonModel::Null,
                },
            ),
            ("stdout"@, JsonModel::Text(stdout)),
            ("stderr"@, JsonModel::Text(stderr)),
        ],
    )
}

impl BashExecutor {
    /// What is told of a command.
    pub fn report(outcome: BashOutcome) -> (r: Result<Json, UnicError>)
        ensures
            match outcome {
                BashOutcome::Finished { success, exit_code, stdout, stderr } => {
                    &&& r matches Ok(v)
                    &&& v.model() == bash_report(success, exit_code, lossy(stdout@), lossy(stderr@))
                    &&& valid_utf8(stdout@) ==> lossy(stdout@) == decode_utf8(stdout@)
                    &&& valid_utf8(stderr@) ==> lossy(stderr@) == decode_utf8(stderr@)
                },
                BashOutcome::TimedOut => {
                    r matches Err(UnicError::Tool(said)) && said@ == "bash: timeout"@
                },
                BashOutcome::Failed(e) => r == Err::<Json, UnicError>(UnicError::Io(e)),
            },
    {
        match outcome {
            BashOutcome::Finished { success, exit_code, stdout, stderr } => Ok(
                Self::finished(
                    success,
                    exit_code,
                    text_of(stdout.as_slice()),
                    text_of(stderr.as_slice()),
                ),
            ),
            BashOutcome::TimedOut => Err(UnicError::Tool("bash: timeout".to_owned())),
            BashOutcome::Failed(e) => Err(UnicError::Io(e)),
        }
    }

    /// What is told of a command that ended.
    pub fn finished(success: bool, exit_code: Option<i32>, stdout: String, stderr: String) -> (r:
        Json)
        ensures
            r.model() == bash_report(success, exit_code, stdout@, stderr@),
    {
        let mut fields: Vec<(String, Json)> = Vec::new();
        let status = if success {
            "ok"
        } else {
            "error"
        };
        put(&mut fields, "status", Json::Text(status.to_owned()));
        put(
            &mut fields,
            "exit_code",
            match exit_code {
                Some(c) => Json::Integer(c as i64),
                None => Json::Null,
            },
        );
        put(&mut fields, "stdout", Json::Text(stdout));
        put(&mut fields, "stderr", Json::Text(stderr));
        assert(fields_model(fields@) =~= bash_report(
            success,
            exit_code,
            stdout@,
            stderr@,
        )->Object_0);
        object(fields)
    }
}

/// What is asked about files.
#[derive(Debug)]
pub enum FsArgs {
    Read { path: String, max_bytes: Option<usize> },
    Write { path: String, data: String, append: Option<bool> },
}

/// Whether a file is cut when it is read.
pub open spec fn is_cut(len: nat, max_bytes: Option<usize>) -> bool {
    max_bytes matches Some(max) && len > max
}

/// What is read of a file.
pub open spec fn bytes_read(bytes: Seq<u8>, max_bytes: Option<usize>) -> Seq<u8> {
    if is_cut(bytes.len(), max_bytes) {
        bytes.take(max_bytes->0 as int)
    } else {
        bytes
    }
}

/// What is told of a file that was read.
pub open spec fn read_report(path: Seq<char>, data: Seq<char>, truncated: bool) -> JsonModel {
    JsonModel::Object(
        seq![
            ("path"@, JsonModel::Text(path)),
            ("data"@, JsonModel::Text(data)),
            ("truncated"@, JsonModel::Bool(truncated)),
        ],
    )
}

/// What is told of a file that was written.
pub open spec fn write_report(path: Seq<char>, appended: bool) -> JsonModel {
    JsonModel::Object(
        seq![
            ("path"@, JsonModel::Text(path)),
            ("status"@, JsonModel::Text(if appended { "appended"@ } else { "written"@ })),
        ],
    )
}

impl FileSystemOperator {
    /// What is told of a file that holds `bytes`.
    pub fn report_read(path: &str, bytes: &Vec<u8>, max_bytes: Option<usize>) -> (r: Json)
        ensures
            r.model() == read_report(
                path@,
                lossy(bytes_read(bytes@, max_bytes)),
                is_cut(bytes@.len(), max_bytes),
            ),
            valid_utf8(bytes_read(bytes@, max_bytes)) ==> r.model() == read_report(
                path@,
                decode_utf8(bytes_read(bytes@, max_bytes)),
                is_cut(bytes@.len(), max_bytes),
            ),
    {
        let all = bytes.as_slice();
        match max_bytes {
            Some(max) => {
                if bytes.len() > max {
                    let (front, _) = all.split_at(max);
                    assert(front@ =~= bytes@.take(max as int));
                    return Self::read_text(path, text_of(front), true);
                }
            },
            None => {},
        }
        Self::read_text(path, text_of(all), false)
    }

    /// What is told of a file that reads `data`.
    pub fn read_text(path: &str, data: String, truncated: bool) -> (r: Json)
        ensures
            r.model() == read_report(path@, data@, truncated),
    {
        let mut fields: Vec<(String, Json)> = Vec::new();
        put(&mut fields, "path", Json::Text(path.to_owned()));
        put(&mut fields, "data", Json::Text(data));
        put(&mut fields, "truncated", Json::Bool(truncated));
        assert(fields_model(fields@) =~= read_report(path@, data@, truncated)->Object_0);
        object(fields)
    }

    /// Whether what is written goes to the end of the file; if nothing is said it takes the
    /// place of what was there.
    pub fn appends(append: Option<bool>) -> (r: bool)
        ensures
            r == (append == Some(true)),
    {
        match append {
            Some(b) => b,
            None => false,
        }
    }

    /// What is told of a file that was written.
    pub fn report_written(path: &str, appended: bool) -> (r: Json)
        ensures
            r.model() == write_report(path@, appended),
    {
        let status = if appended {
            "appended"
        } else {
            "written"
        };
        let mut fields: Vec<(String, Json)> = Vec::new();
        put(&mut fields, "path", Json::Text(path.to_owned()));
        put(&mut fields, "status", Json::Text(status.to_owned()));
        assert(fields_model(fields@) =~= write_report(path@, appended)->Object_0);
        object(fields)
    }
}

/// What a file that held `before` holds after `data` was written to it.
pub open spec fn file_after(before: Seq<u8>, data: Seq<char>, append: Option<bool>) -> Seq<u8> {
    if append == Some(true) {
        before + encode_utf8(data)
    } else {
        encode_utf8(data)
    }
}

proof fn lemma_encode_concat(a: Seq<char>, b: Seq<char>)
    ensures
        encode_utf8(a) + encode_utf8(b) == encode_utf8(a + b),
    decreases a.len(),
{
    if a.len() == 0 {
        assert(a + b =~= b);
        assert(encode_utf8(a) + encode_utf8(b) =~= encode_utf8(b));
    } else {
        lemma_encode_concat(a.drop_first(), b);
        assert((a + b).drop_first() =~= a.drop_first() + b);
        assert(encode_utf8(a) + encode_utf8(b) =~= encode_utf8(a + b));
    }
}

/// What was written to a file is what is read from it: the whole text, or its first bytes where
/// no more are asked for. What was added to a text stands behind it.
pub proof fn law_what_is_written_is_read(
    before: Seq<u8>,
    was: Seq<char>,
    data: Seq<char>,
    append: Option<bool>,
    max: usize,
)
    ensures
        ({
            let file = file_after(before, data, append);
            append != Some(true) ==> {
                &&& !is_cut(file.len(), None)
                &&& valid_utf8(bytes_read(file, None))
                &&& decode_utf8(bytes_read(file, None)) == data
                &&& is_cut(file.len(), Some(max)) == (encode_utf8(data).len() > max)
                &&& bytes_read(file, Some(max)) == if encode_utf8(data).len() > max {
                    encode_utf8(data).take(max as int)
                } else {
                    encode_utf8(data)
                }
            }
        }),
        ({
            let file = file_after(encode_utf8(was), data, Some(true));
            valid_utf8(bytes_read(file, None)) && decode_utf8(bytes_read(file, None)) == was + data
        }),
{
    encode_utf8_valid_utf8(data);
    encode_utf8_decode_utf8(data);
    lemma_encode_concat(was, data);
    encode_utf8_valid_utf8(was + data);
    encode_utf8_decode_utf8(was + data);
}

/// Whether `c` may stand in the name of an HTTP method.
pub open spec fn method_char(c: char) -> bool {
    ||| '0' <= c <= '9'
    ||| 'A' <= c <= 'Z'
    ||| 'a' <= c <= 'z'
    ||| c == '!' || c == '#' || c == '$' || c == '%' || c == '&' || c == '\'' || c == '*'
    ||| c == '+' || c == '-' || c == '.' || c == '^' || c == '_' || c == '`' || c == '|' || c == '~'
}

/// Whether `s` can name an HTTP method.
pub open spec fn method_name(s: Seq<char>) -> bool {
    s.len() > 0 && forall|i: int| 0 <= i < s.len() ==> method_char(#[trigger] s[i])
}

/// `str::parse` into a `reqwest::Method`: it succeeds where the text is a token: one or
/// more letters, digits and marks.
#[verifier::external_body]
fn is_method(s: &str) -> (r: bool)
    ensures
        r == method_name(s@),
{
    s.parse::<reqwest::Method>().is_ok()
}

/// What the web is asked.
#[derive(Debug)]
pub struct NetArgs {
    pub method: String,
    pub url: String,
    pub headers: Option<Vec<(String, String)>>,
    pub body: Option<Json>,
}

/// What became of a request.
#[derive(Debug)]
pub enum NetOutcome {
    /// The server answered.
    Reply { status: u16, headers: Vec<(String, String)>, body: String },
    /// The request did not get through, for this reason.
    RequestFailed(String),
    /// The body of the answer could not be read, for this reason.
    BodyFailed(String),
}

/// The headers of an answer, each name once, with the last value that it has.
pub open spec fn header_fields(headers: Seq<(String, String)>) -> Seq<(Seq<char>, JsonModel)>
    decreases headers.len(),
{
    if headers.len() == 0 {
        Seq::empty()
    } else {
        let (k, v) = headers.last();
        set_field(header_fields(headers.drop_last()), k@, JsonModel::Text(v@))
    }
}

/// `fields` with `value` under `key`: in place of what stands there, or at the end.
pub open spec fn set_field(
    fields: Seq<(Seq<char>, JsonModel)>,
    key: Seq<char>,
    value: JsonModel,
) -> Seq<(Seq<char>, JsonModel)>
    decreases fields.len(),
{
    if fields.len() == 0 {
        seq![(key, value)]
    } else if fields[0].0 == key {
        seq![(key, value)] + fields.drop_first()
    } else {
        seq![fields[0]] + set_field(fields.drop_first(), key, value)
    }
}

proof fn lemma_set_field(
    fields: Seq<(Seq<char>, JsonModel)>,
    key: Seq<char>,
    value: JsonModel,
    k: int,
)
    requires
        0 <= k <= fields.len(),
        forall|i: int| 0 <= i < k ==> (#[trigger] fields[i]).0 != key,
        k < fields.len() ==> fields[k].0 == key,
    ensures
        k < fields.len() ==> set_field(fields, key, value) == fields.update(k, (key, value)),
        k == fields.len() ==> set_field(fields, key, value) == fields.push((key, value)),
    decreases fields.len(),
{
    if fields.len() == 0 {
        assert(set_field(fields, key, value) =~= fields.push((key, value)));
    } else if k == 0 {
        assert(set_field(fields, key, value) =~= fields.update(0, (key, value)));
    } else {
        let rest = fields.drop_first();
        assert(fields[0].0 != key);
        assert forall|i: int| 0 <= i < k - 1 implies (#[trigger] rest[i]).0 != key by {
            assert(fields[i + 1].0 != key);
        }
        lemma_set_field(rest, key, value, k - 1);
        if k < fields.len() {
            assert(set_field(fields, key, value) =~= fields.update(k, (key, value)));
        } else {
            assert(set_field(fields, key, value) =~= fields.push((key, value)));
        }
    }
}

/// A header is reported with the last value that it has.
pub proof fn law_last_header_wins(headers: Seq<(String, String)>, i: int)
    requires
        0 <= i < headers.len(),
        forall|j: int| i < j < headers.len() ==> (#[trigger] headers[j]).0@ != headers[i].0@,
    ensures
        crate::json::field(header_fields(headers), headers[i].0@) == Some(
            JsonModel::Text(headers[i].1@),
        ),
    decreases headers.len(),
{
    let before = headers.drop_last();
    let (k, v) = headers.last();
    if i == headers.len() - 1 {
        lemma_set_then_field(header_fields(before), k@, JsonModel::Text(v@), k@);
    } else {
        law_last_header_wins(before, i);
        assert(headers[headers.len() - 1].0@ != headers[i].0@);
        lemma_set_then_field(header_fields(before), k@, JsonModel::Text(v@), headers[i].0@);
    }
}

proof fn lemma_set_then_field(
    fields: Seq<(Seq<char>, JsonModel)>,
    key: Seq<char>,
    value: JsonModel,
    asked: Seq<char>,
)
    ensures
        crate::json::field(set_field(fields, key, value), asked) == if asked == key {
            Some(value)
        } else {
            crate::json::field(fields, asked)
        },
    decreases fields.len(),
{
    let after = set_field(fields, key, value);
    if fields.len() == 0 {
        assert(after.drop_first() =~= Seq::empty());
        assert(crate::json::field(after.drop_first(), asked) is None);
    } else if fields[0].0 == key {
        assert(after.drop_first() =~= fields.drop_first());
    } else {
        lemma_set_then_field(fields.drop_first(), key, value, asked);
        assert(after.drop_first() =~= set_field(fields.drop_first(), key, value));
    }
}

/// What is told of an answer of the web.
pub open spec fn net_report(status: u16, headers: Seq<(String, String)>, body: Seq<char>) -> JsonModel {
    JsonModel::Object(
        seq![
            ("status"@, JsonModel::Integer(status as int)),
            ("headers"@, JsonModel::Object(header_fields(headers))),
            ("body"@, JsonModel::Text(body)),
        ],
    )
}

impl NetRequestTool {
    /// Whether the request can be made: its method is one.
    pub fn check(args: &NetArgs) -> (r: Result<(), UnicError>)
        ensures
            match r {
                Ok(_) => method_name(args.method@),
                Err(e) => {
                    &&& !method_name(args.method@)
                    &&& e matches UnicError::Tool(said)
                    &&& said@ == "net: invalid method "@ + args.method@
                },
            },
    {
        if is_method(args.method.as_str()) {
            Ok(())
        } else {
            Err(UnicError::Tool("net: invalid method ".to_owned().concat(args.method.as_str())))
        }
    }

    /// Puts `value` under `key`: in place of what stands there, or at the end.
    fn put_header(fields: &mut Vec<(String, Json)>, key: &str, value: &str)
        ensures
            fields_model(final(fields)@) == set_field(
                fields_model(old(fields)@),
                key@,
                JsonModel::Text(value@),
            ),
    {
        let ghost before = fields_model(fields@);
        let ghost new = JsonModel::Text(value@);
        let mut k: usize = 0;
        while k < fields.len()
            invariant
                k <= fields.len(),
                before == fields_model(fields@),
                before == fields_model(old(fields)@),
                new == JsonModel::Text(value@),
                forall|i: int| 0 <= i < k ==> (#[trigger] before[i]).0 != key@,
            decreases fields.len() - k,
        {
            assert(before[k as int].0 == fields@[k as int].0@);
            if same(fields[k].0.as_str(), key) {
                proof {
                    lemma_set_field(before, key@, new, k as int);
                }
                let entry = (key.to_owned(), Json::Text(value.to_owned()));
                fields.set(k, entry);
                assert(fields_model(fields@) =~= before.update(k as int, (key@, new)));
                return;
            }
            k += 1;
        }
        proof {
            lemma_set_field(before, key@, new, k as int);
        }
        put(fields, key, Json::Text(value.to_owned()));
    }

    /// What is told of a request.
    pub fn report(outcome: NetOutcome) -> (r: Result<Json, UnicError>)
        ensures
            match outcome {
                NetOutcome::Reply { status, headers, body } => {
                    r matches Ok(v) && v.model() == net_report(status, headers@, body@)
                },
                NetOutcome::RequestFailed(e) => {
                    r matches Err(UnicError::Tool(said)) && said@ == "net: request failed: "@ + e@
                },
                NetOutcome::BodyFailed(e) => {
                    r matches Err(UnicError::Tool(said)) && said@ == "net: read body failed: "@ + e@
                },
            },
    {
        match outcome {
            NetOutcome::Reply { status, headers, body } => {
                let mut listed: Vec<(String, Json)> = Vec::new();
                let mut i: usize = 0;
                assert(headers@.take(0) =~= Seq::<(String, String)>::empty());
                assert(fields_model(listed@) =~= Seq::empty());
                while i < headers.len()
                    invariant
                        i <= headers.len(),
                        fields_model(listed@) == header_fields(headers@.take(i as int)),
                    decreases headers.len() - i,
                {
                    assert(headers@.take(i + 1).drop_last() =~= headers@.take(i as int));
                    assert(headers@.take(i + 1).last() == headers@[i as int]);
                    let h = &headers[i];
                    Self::put_header(&mut listed, h.0.as_str(), h.1.as_str());
                    i += 1;
                }
                assert(headers@.take(i as int) =~= headers@);
                let mut fields: Vec<(String, Json)> = Vec::new();
                put(&mut fields, "status", Json::Integer(status as i64));
                put(&mut fields, "headers", object(listed));
                put(&mut fields, "body", Json::Text(body));
                assert(fields_model(fields@) =~= net_report(status, headers@, body@)->Object_0);
                Ok(object(fields))
            },
            NetOutcome::RequestFailed(e) => Err(
                UnicError::Tool("net: request failed: ".to_owned().concat(e.as_str())),
            ),
            NetOutcome::BodyFailed(e) => Err(
                UnicError::Tool("net: read body failed: ".to_owned().concat(e.as_str())),
            ),
        }
    }
}

/// What an environment variable is taken to say: its text without the white space around
/// it, or `fallback` where there is none.
pub open spec fn env_or(value: Option<String>, fallback: Seq<char>) -> Seq<char> {
    match value {
        Some(v) => if blank(v@) {
            fallback
        } else {
            trimmed(v@)
        },
        None => fallback,
    }
}

/// What an environment variable is taken to say.
pub fn env_text(value: &Option<String>, fallback: &str) -> (r: String)
    ensures
        r@ == env_or(*value, fallback@),
{
    match value {
        Some(v) => {
            let t = trim(v.as_str());
            if t.is_empty() {
                fallback.to_owned()
            } else {
                t.to_owned()
            }
        },
        None => fallback.to_owned(),
    }
}

/// What is asked about a conversation.
#[derive(Debug)]
pub struct ConvLoadArgs {
    pub conversation_id: String,
    pub max_messages: Option<usize>,
}

/// What is kept of a conversation: which messages belong to it.
#[derive(Debug)]
pub struct ConversationFile {
    pub conversation_id: ConversationId,
    pub message_ids: Vec<u128>,
}

/// The conversation that `text` means: the one that it spells out, or the one that it is
/// the seed of.
pub open spec fn meant_conversation(text: Seq<char>) -> Seq<char> {
    match spelled_id(text) {
        Some(id) => id,
        None => hex8(fnv1a(encode_utf8(text))),
    }
}

/// The name of the conversation that a text means leads to the same conversation.
pub proof fn law_a_conversation_is_found_by_its_name(text: Seq<char>)
    ensures
        valid_id(meant_conversation(text)),
        meant_conversation(meant_conversation(text)) == meant_conversation(text),
{
    law_seed_gives_a_conversation(text);
    law_id_spells_itself(meant_conversation(text));
}

/// How a conversation is loaded.
#[derive(Debug)]
pub struct ConvPlan {
    pub id: ConversationId,
    pub conv_path: String,
    pub god_log: String,
    pub max_messages: usize,
}

/// The last message of `log` with the identifier `id`.
pub open spec fn last_with(log: Seq<Envelope<Event>>, id: u128) -> Option<Envelope<Event>>
    decreases log.len(),
{
    if log.len() == 0 {
        None
    } else if log.last().id == id && log.last().payload is Message {
        Some(log.last())
    } else {
        last_with(log.drop_last(), id)
    }
}

/// How a sender is written in JSON.
pub open spec fn sender_model(sender: Sender) -> JsonModel {
    match sender {
        Sender::UserSudo => JsonModel::Text("UserSudo"@),
        Sender::Agent(id) => JsonModel::Object(seq![("Agent"@, JsonModel::Text(id@))]),
        Sender::System => JsonModel::Text("System"@),
    }
}

/// What is told of a message.
pub open spec fn message_model(env: Envelope<Event>) -> JsonModel {
    JsonModel::Object(
        seq![
            ("id"@, JsonModel::Text(id_shown(env.id))),
            ("ts"@, JsonModel::Text(time_written(env.ts.secs, env.ts.nanos))),
            ("topic"@, JsonModel::Text(env.topic@)),
            ("sender"@, sender_model(env.sender)),
            ("conversation_id"@, JsonModel::Text(env.conversation_id@)),
            ("text"@, JsonModel::Text(env.payload->Message_0.text@)),
        ],
    )
}

/// The messages of `wanted` that stand in `log`, in the order of `wanted`.
pub open spec fn found_messages(wanted: Seq<u128>, log: Seq<Envelope<Event>>) -> Seq<JsonModel>
    decreases wanted.len(),
{
    if wanted.len() == 0 {
        Seq::empty()
    } else {
        let before = found_messages(wanted.drop_last(), log);
        match last_with(log, wanted.last()) {
            Some(env) => before.push(message_model(env)),
            None => before,
        }
    }
}

/// Those of `wanted` that do not stand in `log`, in the order of `wanted`.
pub open spec fn missing_messages(wanted: Seq<u128>, log: Seq<Envelope<Event>>) -> Seq<JsonModel>
    decreases wanted.len(),
{
    if wanted.len() == 0 {
        Seq::empty()
    } else {
        let before = missing_messages(wanted.drop_last(), log);
        match last_with(log, wanted.last()) {
            Some(_) => before,
            None => before.push(JsonModel::Text(id_shown(wanted.last()))),
        }
    }
}

/// Every message that is wanted is either found or missing.
pub proof fn law_wanted_is_found_or_missing(wanted: Seq<u128>, log: Seq<Envelope<Event>>)
    ensures
        found_messages(wanted, log).len() + missing_messages(wanted, log).len() == wanted.len(),
    decreases wanted.len(),
{
    if wanted.len() > 0 {
        law_wanted_is_found_or_missing(wanted.drop_last(), log);
    }
}

/// What is told of a conversation.
pub open spec fn conv_report(
    plan: ConvPlan,
    wanted: Seq<u128>,
    log: Seq<Envelope<Event>>,
) -> JsonModel {
    JsonModel::Object(
        seq![
            ("conversation_id"@, JsonModel::Text(plan.id@)),
            ("conv_path"@, JsonModel::Text(plan.conv_path@)),
            ("god_log"@, JsonModel::Text(plan.god_log@)),
            ("messages"@, JsonModel::Array(found_messages(wanted, log))),
            ("missing_message_ids"@, JsonModel::Array(missing_messages(wanted, log))),
        ],
    )
}

/// How a sender is written in JSON.
fn sender_json(sender: &Sender) -> (r: Json)
    ensures
        r.model() == sender_model(*sender),
{
    match sender {
        Sender::UserSudo => Json::Text("UserSudo".to_owned()),
        Sender::Agent(id) => {
            let mut fields: Vec<(String, Json)> = Vec::new();
            put(&mut fields, "Agent", Json::Text(id.to_string()));
            assert(fields_model(fields@) =~= sender_model(*sender)->Object_0);
            object(fields)
        },
        Sender::System => Json::Text("System".to_owned()),
    }
}

/// What is told of a message.
fn message_json(env: &Envelope<Event>, m: &Message) -> (r: Json)
    requires
        env.ts.datable(),
        env.payload == Event::Message(*m),
    ensures
        r.model() == message_model(*env),
{
    let mut fields: Vec<(String, Json)> = Vec::new();
    put(&mut fields, "id", Json::Text(show_id(env.id)));
    put(&mut fields, "ts", Json::Text(write_time(env.ts)));
    put(&mut fields, "topic", Json::Text(env.topic.to_string()));
    put(&mut fields, "sender", sender_json(&env.sender));
    put(&mut fields, "conversation_id", Json::Text(env.conversation_id.to_string()));
    put(&mut fields, "text", Json::Text(m.text.clone()));
    assert(fields_model(fields@) =~= message_model(*env)->Object_0);
    object(fields)
}

impl ConversationLoader {
    /// How the conversation of `args` is loaded, where `conversations_dir` and `god_log` are
    /// what the environment says.
    pub fn plan(
        args: &ConvLoadArgs,
        conversations_dir: &Option<String>,
        god_log: &Option<String>,
    ) -> (r: ConvPlan)
        ensures
            r.id@ == meant_conversation(args.conversation_id@),
            r.conv_path@ == inside(
                env_or(*conversations_dir, "/var/lib/unicos/conversations"@),
                r.id@ + ".json"@,
            ),
            r.god_log@ == env_or(*god_log, "/var/lib/unicos/god.log"@),
            r.max_messages == match args.max_messages {
                Some(n) => if n == 0 {
                    1usize
                } else {
                    n
                },
                None => 200usize,
            },
    {
        let id = match ConversationId::parse_hex(args.conversation_id.as_str()) {
            Some(id) => id,
            None => ConversationId::from_seed(args.conversation_id.as_str()),
        };
        let dir = env_text(conversations_dir, "/var/lib/unicos/conversations");
        let file = id.to_string().concat(".json");
        let max_messages: usize = match args.max_messages {
            Some(n) => if n == 0 {
                1
            } else {
                n
            },
            None => 200,
        };
        ConvPlan {
            conv_path: join_path(dir.as_str(), file.as_str()),
            id,
            god_log: env_text(god_log, "/var/lib/unicos/god.log"),
            max_messages,
        }
    }
}

impl ConvPlan {
    /// The messages to look for: the last ones of the conversation, if `file` is about it.
    pub fn wanted(&self, file: ConversationFile) -> (r: Result<Vec<u128>, UnicError>)
        ensures
            match r {
                Ok(ids) => {
                    &&& file.conversation_id@ == self.id@
                    &&& ids@ == crate::context::latest(file.message_ids@, self.max_messages as nat)
                },
                Err(e) => {
                    &&& file.conversation_id@ != self.id@
                    &&& e matches UnicError::Tool(said)
                    &&& said@ == "conv_load: conversation_id mismatch in "@ + self.conv_path@
                },
            },
    {
        if !file.conversation_id.same_as(&self.id) {
            return Err(
                UnicError::Tool(
                    "conv_load: conversation_id mismatch in ".to_owned().concat(
                        self.conv_path.as_str(),
                    ),
                ),
            );
        }
        let mut ids = file.message_ids;
        if ids.len() > self.max_messages {
            let cut: usize = ids.len() - self.max_messages;
            let ghost all = ids@;
            let tail = ids.split_off(cut);
            assert(tail@ =~= all.skip(cut as int));
            Ok(tail)
        } else {
            Ok(ids)
        }
    }

    /// What is told of the conversation, where `log` is what the log holds.
    pub fn report(&self, wanted: &Vec<u128>, log: &Vec<Envelope<Event>>) -> (r: Json)
        requires
            forall|i: int| 0 <= i < log@.len() ==> (#[trigger] log@[i]).ts.datable(),
        ensures
            r.model() == conv_report(*self, wanted@, log@),
    {
        let mut messages: Vec<Json> = Vec::new();
        let mut missing: Vec<Json> = Vec::new();
        let mut i: usize = 0;
        assert(wanted@.take(0) =~= Seq::<u128>::empty());
        assert(items_model(messages@) =~= Seq::empty());
        assert(items_model(missing@) =~= Seq::empty());
        while i < wanted.len()
            invariant
                i <= wanted.len(),
                forall|j: int| 0 <= j < log@.len() ==> (#[trigger] log@[j]).ts.datable(),
                items_model(messages@) == found_messages(wanted@.take(i as int), log@),
                items_model(missing@) == missing_messages(wanted@.take(i as int), log@),
            decreases wanted.len() - i,
        {
            let id: u128 = wanted[i];
            assert(wanted@.take(i + 1).drop_last() =~= wanted@.take(i as int));
            assert(wanted@.take(i + 1).last() == id);
            let ghost said = messages@;
            let ghost gone = missing@;
            match Self::find(log, id) {
                Some(v) => {
                    messages.push(v);
                    assert(items_model(messages@) =~= items_model(said).push(v.model()));
                },
                None => {
                    let v = Json::Text(show_id(id));
                    missing.push(v);
                    assert(items_model(missing@) =~= items_model(gone).push(v.model()));
                },
            }
            i += 1;
        }
        assert(wanted@.take(i as int) =~= wanted@);
        let mut fields: Vec<(String, Json)> = Vec::new();
        put(&mut fields, "conversation_id", Json::Text(self.id.to_string()));
        put(&mut fields, "conv_path", Json::Text(self.conv_path.clone()));
        put(&mut fields, "god_log", Json::Text(self.god_log.clone()));
        put(&mut fields, "messages", array(messages));
        put(&mut fields, "missing_message_ids", array(missing));
        assert(fields_model(fields@) =~= conv_report(*self, wanted@, log@)->Object_0);
        object(fields)
    }

    /// What is told of the last message with the identifier `id`.
    fn find(log: &Vec<Envelope<Event>>, id: u128) -> (r: Option<Json>)
        requires
            forall|j: int| 0 <= j < log@.len() ==> (#[trigger] log@[j]).ts.datable(),
        ensures
            match last_with(log@, id) {
                Some(env) => r matches Some(v) && v.model() == message_model(env),
                None => r is None,
            },
    {
        let mut k: usize = log.len();
        assert(log@.take(k as int) =~= log@);
        while k > 0
            invariant
                k <= log.len(),
                forall|j: int| 0 <= j < log@.len() ==> (#[trigger] log@[j]).ts.datable(),
                last_with(log@.take(k as int), id) == last_with(log@, id),
            decreases k,
        {
            let env = &log[k - 1];
            assert(log@.take(k as int).last() == *env);
            assert(log@.take(k as int).drop_last() =~= log@.take(k - 1));
            if env.id == id {
                match &env.payload {
                    Event::Message(m) => {
                        return Some(message_json(env, m));
                    },
                    _ => {},
                }
            }
            k -= 1;
        }
        None
    }
}

/// The report of a command tells how it ended: the exit code is the one that it ended with,
/// whatever it is and whether or not the command succeeded, and is missing only where there was
/// none. What the command wrote is told in full.
pub proof fn law_a_command_is_reported_in_full(
    success: bool,
    exit_code: Option<i32>,
    stdout: String,
    stderr: String,
    report: Json,
)
    requires
        call_ensures(BashExecutor::finished, (success, exit_code, stdout, stderr), report),
    ensures
        exit_code matches Some(c) ==> report.model().member("exit_code"@) == Some(
            JsonModel::Integer(c as int),
        ),
        exit_code is None ==> report.model().member("exit_code"@) == Some(JsonModel::Null),
        success ==> report.model().member("status"@) == Some(JsonModel::Text("ok"@)),
        !success ==> report.model().member("status"@) == Some(JsonModel::Text("error"@)),
        report.model().member("stdout"@) == Some(JsonModel::Text(stdout@)),
        report.model().member("stderr"@) == Some(JsonModel::Text(stderr@)),
{
    reveal_strlit("status");
    reveal_strlit("exit_code");
    reveal_strlit("stdout");
    reveal_strlit("stderr");
    assert("status"@[2] != "stdout"@[2] && "status"@[2] != "stderr"@[2]);
    assert("stdout"@[3] != "stderr"@[3]);
    assert("exit_code"@[0] != "status"@[0] && "exit_code"@[0] != "stdout"@[0] && "exit_code"@[0]
        != "stderr"@[0]);
    let fields = report.model()->Object_0;
    law_the_first_field_counts(fields, "status"@, 0);
    law_the_first_field_counts(fields, "exit_code"@, 1);
    law_the_first_field_counts(fields, "stdout"@, 2);
    law_the_first_field_counts(fields, "stderr"@, 3);
}

/// A command that ended is reported, however it ended; one that did not is an error, with the
/// reason. What it wrote in UTF-8 is told as it was written.
pub proof fn law_what_became_of_a_command_is_told(
    outcome: BashOutcome,
    r: Result<Json, UnicError>,
)
    requires
        call_ensures(BashExecutor::report, (outcome,), r),
    ensures
        outcome matches BashOutcome::Finished { success, exit_code, stdout, stderr } ==> {
            &&& r matches Ok(report)
            &&& exit_code is Some ==> report.model().member("exit_code"@) == Some(
                JsonModel::Integer(exit_code->0 as int),
            )
            &&& exit_code is None ==> report.model().member("exit_code"@) == Some(JsonModel::Null)
            &&& report.model().member("status"@) == Some(
                JsonModel::Text(if success { "ok"@ } else { "error"@ }),
            )
            &&& valid_utf8(stdout@) ==> report.model().member("stdout"@) == Some(
                JsonModel::Text(decode_utf8(stdout@)),
            )
            &&& valid_utf8(stderr@) ==> report.model().member("stderr"@) == Some(
                JsonModel::Text(decode_utf8(stderr@)),
            )
        },
        outcome is TimedOut ==> (r matches Err(UnicError::Tool(e)) && e@ == "bash: timeout"@),
        outcome matches BashOutcome::Failed(why) ==> r == Err::<Json, UnicError>(
            UnicError::Io(why),
        ),
{
    reveal_strlit("status");
    reveal_strlit("exit_code");
    reveal_strlit("stdout");
    reveal_strlit("stderr");
    assert("status"@[2] != "stdout"@[2] && "status"@[2] != "stderr"@[2]);
    assert("stdout"@[3] != "stderr"@[3]);
    assert("exit_code"@[0] != "status"@[0] && "exit_code"@[0] != "stdout"@[0] && "exit_code"@[0]
        != "stderr"@[0]);
    if outcome is Finished {
        let fields = r->Ok_0.model()->Object_0;
        law_the_first_field_counts(fields, "status"@, 0);
        law_the_first_field_counts(fields, "exit_code"@, 1);
        law_the_first_field_counts(fields, "stdout"@, 2);
        law_the_first_field_counts(fields, "stderr"@, 3);
    }
}

/// A command may take as long as is asked for, and half a minute where nothing is asked.
pub proof fn law_a_command_has_its_time(args: BashArgs, ms: u64)
    requires
        call_ensures(BashArgs::time_limit_ms, (&args,), ms),
    ensures
        args.timeout_ms is Some ==> ms == args.timeout_ms->0,
        args.timeout_ms is None ==> ms == 30_000,
{
}

/// A file is read from its first byte on, and no further than is asked; where nothing is asked
/// it is read whole. It counts as cut just where there is more of it.
pub proof fn law_a_file_is_read_from_its_front(bytes: Seq<u8>, max: usize)
    ensures
        bytes_read(bytes, None) == bytes,
        !is_cut(bytes.len(), None),
        bytes_read(bytes, Some(max)).len() == if bytes.len() <= max { bytes.len() } else { max as nat },
        forall|i: int|
            0 <= i < bytes_read(bytes, Some(max)).len() ==> #[trigger] bytes_read(
                bytes,
                Some(max),
            )[i] == bytes[i],
        is_cut(bytes.len(), Some(max)) <==> bytes_read(bytes, Some(max)).len() < bytes.len(),
{
}

/// The report of a file names it, tells what was read of it in full, and whether there is more.
pub proof fn law_a_file_is_reported_in_full(
    path: &str,
    bytes: Vec<u8>,
    max_bytes: Option<usize>,
    report: Json,
)
    requires
        call_ensures(FileSystemOperator::report_read, (path, &bytes, max_bytes), report),
    ensures
        report.model().member("path"@) == Some(JsonModel::Text(path@)),
        max_bytes is None || bytes@.len() <= max_bytes->0 ==> {
            &&& report.model().member("truncated"@) == Some(JsonModel::Bool(false))
            &&& valid_utf8(bytes@) ==> report.model().member("data"@) == Some(
                JsonModel::Text(decode_utf8(bytes@)),
            )
        },
        max_bytes is Some && bytes@.len() > max_bytes->0 ==> {
            let front = bytes@.take(max_bytes->0 as int);
            &&& report.model().member("truncated"@) == Some(JsonModel::Bool(true))
            &&& valid_utf8(front) ==> report.model().member("data"@) == Some(
                JsonModel::Text(decode_utf8(front)),
            )
        },
{
    reveal_strlit("path");
    reveal_strlit("data");
    reveal_strlit("truncated");
    assert("path"@[0] != "data"@[0] && "path"@[0] != "truncated"@[0] && "data"@[0]
        != "truncated"@[0]);
    let fields = report.model()->Object_0;
    law_the_first_field_counts(fields, "path"@, 0);
    law_the_first_field_counts(fields, "data"@, 1);
    law_the_first_field_counts(fields, "truncated"@, 2);
}

/// The report of a file that was written names it, and tells whether the text was added or took
/// the place of what was there; it is added only where that is asked for.
pub proof fn law_a_written_file_is_reported(
    path: &str,
    append: Option<bool>,
    appended: bool,
    report: Json,
)
    requires
        call_ensures(FileSystemOperator::appends, (append,), appended),
        call_ensures(FileSystemOperator::report_written, (path, appended), report),
    ensures
        report.model().member("path"@) == Some(JsonModel::Text(path@)),
        append == Some(true) ==> report.model().member("status"@) == Some(
            JsonModel::Text("appended"@),
        ),
        append != Some(true) ==> report.model().member("status"@) == Some(
            JsonModel::Text("written"@),
        ),
{
    reveal_strlit("path");
    reveal_strlit("status");
    assert("path"@[0] != "status"@[0]);
    let fields = report.model()->Object_0;
    law_the_first_field_counts(fields, "path"@, 0);
    law_the_first_field_counts(fields, "status"@, 1);
}

/// An answer of the web is reported with its status, its whole body, and every header that it
/// has, each with its last value; no other header is made up.
pub proof fn law_an_answer_of_the_web_is_reported_in_full(
    status: u16,
    headers: Vec<(String, String)>,
    body: String,
    r: Result<Json, UnicError>,
    i: int,
    name: Seq<char>,
)
    requires
        call_ensures(NetRequestTool::report, (NetOutcome::Reply { status, headers, body },), r),
        0 <= i < headers@.len() ==> forall|j: int|
            i < j < headers@.len() ==> (#[trigger] headers@[j]).0@ != headers@[i].0@,
        forall|j: int| 0 <= j < headers@.len() ==> (#[trigger] headers@[j]).0@ != name,
    ensures
        r matches Ok(report) && {
            &&& report.model().member("status"@) == Some(JsonModel::Integer(status as int))
            &&& report.model().member("body"@) == Some(JsonModel::Text(body@))
            &&& report.model().member("headers"@) matches Some(listed)
            &&& 0 <= i < headers@.len() ==> listed.member(headers@[i].0@) == Some(
                JsonModel::Text(headers@[i].1@),
            )
            &&& listed.member(name) is None
        },
{
    reveal_strlit("status");
    reveal_strlit("headers");
    reveal_strlit("body");
    assert("status"@[0] != "headers"@[0] && "status"@[0] != "body"@[0] && "headers"@[0]
        != "body"@[0]);
    let fields = r->Ok_0.model()->Object_0;
    law_the_first_field_counts(fields, "status"@, 0);
    law_the_first_field_counts(fields, "headers"@, 1);
    law_the_first_field_counts(fields, "body"@, 2);
    if 0 <= i < headers@.len() {
        law_last_header_wins(headers@, i);
    }
    lemma_no_such_header(headers@, name);
}

proof fn lemma_no_such_header(headers: Seq<(String, String)>, name: Seq<char>)
    requires
        forall|j: int| 0 <= j < headers.len() ==> (#[trigger] headers[j]).0@ != name,
    ensures
        crate::json::field(header_fields(headers), name) is None,
    decreases headers.len(),
{
    if headers.len() > 0 {
        let before = headers.drop_last();
        let (k, v) = headers.last();
        assert(headers[headers.len() - 1].0@ != name);
        assert forall|j: int| 0 <= j < before.len() implies (#[trigger] before[j]).0@ != name by {
            assert(headers[j].0@ != name);
        }
        lemma_no_such_header(before, name);
        lemma_set_then_field(header_fields(before), k@, JsonModel::Text(v@), name);
    }
}

/// A request that failed is an error that tells why, in full.
pub proof fn law_a_failed_request_tells_why(
    e: String,
    sent: Result<Json, UnicError>,
    read: Result<Json, UnicError>,
)
    requires
        call_ensures(NetRequestTool::report, (NetOutcome::RequestFailed(e),), sent),
        call_ensures(NetRequestTool::report, (NetOutcome::BodyFailed(e),), read),
    ensures
        sent matches Err(UnicError::Tool(said)) && said@ == "net: request failed: "@ + e@,
        read matches Err(UnicError::Tool(said)) && said@ == "net: read body failed: "@ + e@,
{
}

/// What a variable of the environment says takes the place of the fallback, without the white
/// space around it; one that is missing or says nothing leaves the fallback as it is.
pub proof fn law_the_environment_has_its_say(
    value: String,
    fallback: Seq<char>,
    front: Seq<char>,
    middle: Seq<char>,
    back: Seq<char>,
)
    requires
        value@ == front + middle + back,
        forall|i: int| 0 <= i < front.len() ==> crate::text::white(#[trigger] front[i]),
        forall|i: int| 0 <= i < back.len() ==> crate::text::white(#[trigger] back[i]),
        middle.len() > 0 ==> !crate::text::white(middle[0]) && !crate::text::white(middle.last()),
    ensures
        env_or(Some(value), fallback) == if middle.len() > 0 { middle } else { fallback },
        env_or(None, fallback) == fallback,
{
    crate::text::law_only_the_white_space_around_goes(front, middle, back);
}

/// A message is found under its identifier where it stands last in the log; later messages with
/// other identifiers, and later events that are no messages, do not hide it. Where no message has
/// the identifier, none is found.
pub proof fn law_the_last_message_is_found(log: Seq<Envelope<Event>>, id: u128, i: int)
    requires
        -1 <= i < log.len(),
        i >= 0 ==> log[i].id == id && log[i].payload is Message,
        forall|j: int|
            i < j < log.len() ==> (#[trigger] log[j]).id != id || !(log[j].payload is Message),
    ensures
        i >= 0 ==> last_with(log, id) == Some(log[i]),
        i < 0 ==> last_with(log, id) is None,
    decreases log.len(),
{
    if log.len() > 0 && i < log.len() - 1 {
        assert(log[log.len() - 1].id != id || !(log[log.len() - 1].payload is Message));
        law_the_last_message_is_found(log.drop_last(), id, i);
    }
}

/// Of every identifier that is wanted the message is told where the log has it, and the
/// identifier where it has not, in the order in which they are wanted, whatever else is wanted.
pub proof fn law_all_that_is_wanted_is_told(
    a: Seq<u128>,
    b: Seq<u128>,
    log: Seq<Envelope<Event>>,
    id: u128,
)
    ensures
        found_messages(a + b, log) == found_messages(a, log) + found_messages(b, log),
        missing_messages(a + b, log) == missing_messages(a, log) + missing_messages(b, log),
        last_with(log, id) matches Some(env) ==> found_messages(seq![id], log) == seq![
            message_model(env),
        ] && missing_messages(seq![id], log).len() == 0,
        last_with(log, id) is None ==> found_messages(seq![id], log).len() == 0
            && missing_messages(seq![id], log) == seq![JsonModel::Text(id_shown(id))],
    decreases b.len(),
{
    let none = Seq::<u128>::empty();
    assert(seq![id].drop_last() =~= none);
    assert(found_messages(none, log) =~= Seq::empty());
    assert(missing_messages(none, log) =~= Seq::empty());
    reveal_with_fuel(found_messages, 2);
    reveal_with_fuel(missing_messages, 2);
    assert(last_with(log, id) matches Some(env) ==> found_messages(seq![id], log) =~= seq![
        message_model(env),
    ]);
    assert(last_with(log, id) is None ==> missing_messages(seq![id], log) =~= seq![
        JsonModel::Text(id_shown(id)),
    ]);
    if b.len() == 0 {
        assert(a + b =~= a);
        assert(found_messages(a, log) + found_messages(b, log) =~= found_messages(a, log));
        assert(missing_messages(a, log) + missing_messages(b, log) =~= missing_messages(a, log));
    } else {
        law_all_that_is_wanted_is_told(a, b.drop_last(), log, id);
        assert((a + b).drop_last() =~= a + b.drop_last());
        assert((a + b).last() == b.last());
        assert(found_messages(a + b, log) =~= found_messages(a, log) + found_messages(b, log));
        assert(missing_messages(a + b, log) =~= missing_messages(a, log) + missing_messages(b, log));
    }
}

/// What is told of a message of a conversation is all of it: who said what, where, when, and in
/// which conversation.
pub proof fn law_a_message_is_told_in_full(env: Envelope<Event>, m: Message)
    requires
        env.payload == Event::Message(m),
    ensures
        ({
            let told = message_model(env);
            &&& told.member("id"@) == Some(JsonModel::Text(id_shown(env.id)))
            &&& told.member("ts"@) == Some(JsonModel::Text(time_written(env.ts.secs, env.ts.nanos)))
            &&& told.member("topic"@) == Some(JsonModel::Text(env.topic@))
            &&& told.member("conversation_id"@) == Some(JsonModel::Text(env.conversation_id@))
            &&& told.member("text"@) == Some(JsonModel::Text(m.text@))
            &&& told.member("sender"@) matches Some(sender)
            &&& match env.sender {
                Sender::UserSudo => sender == JsonModel::Text("UserSudo"@),
                Sender::System => sender == JsonModel::Text("System"@),
                Sender::Agent(id) => sender.member("Agent"@) == Some(JsonModel::Text(id@)),
            }
        }),
{
    reveal_strlit("id");
    reveal_strlit("ts");
    reveal_strlit("topic");
    reveal_strlit("sender");
    reveal_strlit("conversation_id");
    reveal_strlit("text");
    assert("id"@[0] != "ts"@[0] && "ts"@.len() == 2);
    assert("topic"@.len() == 5 && "sender"@.len() == 6 && "conversation_id"@.len() == 15
        && "text"@.len() == 4);
    let fields = message_model(env)->Object_0;
    law_the_first_field_counts(fields, "id"@, 0);
    law_the_first_field_counts(fields, "ts"@, 1);
    law_the_first_field_counts(fields, "topic"@, 2);
    law_the_first_field_counts(fields, "sender"@, 3);
    law_the_first_field_counts(fields, "conversation_id"@, 4);
    law_the_first_field_counts(fields, "text"@, 5);
    if let Sender::Agent(id) = env.sender {
        law_the_first_field_counts(sender_model(env.sender)->Object_0, "Agent"@, 0);
    }
}

/// What is told of a conversation names it, and the files that it was read from, and holds what
/// was found and what is missing.
pub proof fn law_a_conversation_is_told_in_full(
    plan: ConvPlan,
    wanted: Vec<u128>,
    log: Vec<Envelope<Event>>,
    report: Json,
)
    requires
        call_ensures(ConvPlan::report, (&plan, &wanted, &log), report),
    ensures
        report.model().member("conversation_id"@) == Some(JsonModel::Text(plan.id@)),
        report.model().member("conv_path"@) == Some(JsonModel::Text(plan.conv_path@)),
        report.model().member("god_log"@) == Some(JsonModel::Text(plan.god_log@)),
        report.model().member("messages"@) == Some(
            JsonModel::Array(found_messages(wanted@, log@)),
        ),
        report.model().member("missing_message_ids"@) == Some(
            JsonModel::Array(missing_messages(wanted@, log@)),
        ),
{
    reveal_strlit("conversation_id");
    reveal_strlit("conv_path");
    reveal_strlit("god_log");
    reveal_strlit("messages");
    reveal_strlit("missing_message_ids");
    assert("conversation_id"@.len() == 15 && "conv_path"@.len() == 9 && "god_log"@.len() == 7
        && "messages"@.len() == 8 && "missing_message_ids"@.len() == 19);
    let fields = report.model()->Object_0;
    law_the_first_field_counts(fields, "conversation_id"@, 0);
    law_the_first_field_counts(fields, "conv_path"@, 1);
    law_the_first_field_counts(fields, "god_log"@, 2);
    law_the_first_field_counts(fields, "messages"@, 3);
    law_the_first_field_counts(fields, "missing_message_ids"@, 4);
}

/// A conversation is looked up under its own name, as many messages as are asked for, one at
/// least, and two hundred where nothing is asked; the last ones are looked for, and only in the
/// file of this very conversation.
pub proof fn law_the_last_messages_are_wanted(
    args: ConvLoadArgs,
    dir: Option<String>,
    god_log: Option<String>,
    plan: ConvPlan,
    file: ConversationFile,
    r: Result<Vec<u128>, UnicError>,
)
    requires
        call_ensures(ConversationLoader::plan, (&args, &dir, &god_log), plan),
        call_ensures(ConvPlan::wanted, (&plan, file), r),
    ensures
        plan.id@ == meant_conversation(args.conversation_id@),
        plan.conv_path@ == inside(
            env_or(dir, "/var/lib/unicos/conversations"@),
            plan.id@ + ".json"@,
        ),
        plan.god_log@ == env_or(god_log, "/var/lib/unicos/god.log"@),
        dir is None ==> plan.conv_path@ == inside(
            "/var/lib/unicos/conversations"@,
            plan.id@ + ".json"@,
        ),
        god_log is None ==> plan.god_log@ == "/var/lib/unicos/god.log"@,
        args.max_messages is None ==> plan.max_messages == 200,
        args.max_messages is Some && args.max_messages->0 > 0 ==> plan.max_messages
            == args.max_messages->0,
        plan.max_messages >= 1,
        r is Ok <==> file.conversation_id@ == plan.id@,
        r matches Ok(ids) ==> {
            let n = ids@.len();
            &&& n == if file.message_ids@.len() <= plan.max_messages {
                file.message_ids@.len()
            } else {
                plan.max_messages as nat
            }
            &&& forall|i: int|
                0 <= i < n ==> #[trigger] ids@[i] == file.message_ids@[file.message_ids@.len() - n
                    + i]
        },
        r matches Err(e) ==> (e matches UnicError::Tool(said) && said@
            == "conv_load: conversation_id mismatch in "@ + plan.conv_path@),
{
}

/// Every agent has the shell, the files, the web and the conversations, each under the name by
/// which it is called, and no other tool.
pub proof fn law_every_tool_is_there(tools: ToolRegistry<BuiltinTool>, name: Seq<char>)
    requires
        call_ensures(ToolRegistry::<BuiltinTool>::with_defaults, (), tools),
    ensures
        tools@.contains_key("bash"@) && tools@["bash"@] is Bash,
        tools@.contains_key("fs"@) && tools@["fs"@] is Files,
        tools@.contains_key("net"@) && tools@["net"@] is Net,
        tools@.contains_key("conv_load"@) && tools@["conv_load"@] is Conversations,
        tools@.contains_key(name) ==> tools@[name].called() == name,
        tools@.contains_key(name) ==> name == "bash"@ || name == "fs"@ || name == "net"@ || name
            == "conv_load"@,
{
    reveal_strlit("bash");
    reveal_strlit("fs");
    reveal_strlit("net");
    reveal_strlit("conv_load");
    assert("bash"@.len() == 4 && "fs"@.len() == 2 && "net"@.len() == 3 && "conv_load"@.len() == 9);
}

/// A tool is found under its name, and a name that no tool has is an error that names it.
pub proof fn law_unknown_tools_are_named<T>(
    tools: ToolRegistry<T>,
    name: &str,
    found: Result<&T, UnicError>,
)
    requires
        call_ensures(ToolRegistry::<T>::call, (&tools, name), found),
    ensures
        found is Ok <==> tools@.contains_key(name@),
        found matches Ok(tool) ==> *tool == tools@[name@],
        found matches Err(e) ==> (e matches UnicError::Tool(said) && said@ == "unknown tool: "@
            + name@),
{
}

/// A text that does not spell a conversation out stands for one by its checksum, and one that
/// does, for that one, capital letters counting as small ones.
pub proof fn law_a_text_means_one_conversation(text: Seq<char>, i: int)
    ensures
        spelled_id(text) is None ==> meant_conversation(text) == hex8(fnv1a(encode_utf8(text))),
        spelled_id(text) is Some && 0 <= i < 8 && !('A' <= text[i] <= 'F')
            ==> meant_conversation(text)[i] == text[i],
        spelled_id(text) is Some ==> meant_conversation(text).len() == 8,
{
    crate::conversation::law_a_conversation_is_spelled_in_either_case(text);
}

/// A method can be used just where it is a token, and another is an error that names it.
pub proof fn law_only_methods_are_sent(args: NetArgs, r: Result<(), UnicError>)
    requires
        call_ensures(NetRequestTool::check, (&args,), r),
    ensures
        r is Ok <==> method_name(args.method@),
        r matches Err(e) ==> (e matches UnicError::Tool(said) && said@ == "net: invalid method "@
            + args.method@),
{
}

} // verus!

//! The uniform protocol: commands, output events, and the translators between them and an
//! engine's text.
use vstd::prelude::*;
use crate::term::{Term, TermModel, terms_model};

verus! {

// ----- numbers -----
pub open spec fn digit_chars() -> Seq<char> {
    seq!['0', '1', '2', '3', '4', '5', '6', '7', '8', '9']
}

/// The decimal rendering of a natural number, without leading zeros.
pub open spec fn decimal(n: nat) -> Seq<char>
    decreases n,
{
    if n < 10 {
        seq![digit_chars()[n as int]]
    } else {
        decimal(n / 10).push(digit_chars()[(n % 10) as int])
    }
}

fn digit_string(d: usize) -> (r: String)
    requires
        d < 10,
    ensures
        r@ == seq![digit_chars()[d as int]],
{
    proof {
        reveal_strlit("0123456789");
        assert("0123456789"@ =~= digit_chars());
    }
    let s = String::from_str("0123456789".substring_char(d, d + 1));
    assert(s@ =~= seq![digit_chars()[d as int]]);
    s
}

/// Renders a number in decimal.
pub fn decimal_string(n: usize) -> (r: String)
    ensures
        r@ == decimal(n as nat),
    decreases n,
{
    let d = digit_string(n % 10);
    if n < 10 {
        d
    } else {
        let hi = decimal_string(n / 10);
        let r = hi.concat(d.as_str());
        assert(r@ =~= decimal(n as nat));
        r
    }
}

// ----- commands -----
/// The kinds of uniform commands.
#[derive(Clone, Copy, PartialEq, Eq, Structural, Debug)]
pub enum CmdKind {
    SAV,
    LOA,
    RES,
    NSE,
    NEW,
    DEL,
    CYC,
    VOL,
    REG,
    INF,
    HLP,
    REM,
    EXI,
    Custom,
}

/// A uniform command. Narsese input is held as the text of the task.
#[derive(Debug, PartialEq, Eq)]
pub enum Cmd {
    SAV { target: String, path: String },
    LOA { target: String, path: String },
    RES { target: String },
    NSE(String),
    NEW { target: String },
    DEL { target: String },
    CYC(usize),
    VOL(usize),
    REG { name: String },
    INF { source: String },
    HLP { name: String },
    REM { comment: String },
    EXI { reason: String },
    Custom { head: String, tail: String },
}

pub open spec fn kind_of_cmd(c: Cmd) -> CmdKind {
    match c {
        Cmd::SAV { .. } => CmdKind::SAV,
        Cmd::LOA { .. } => CmdKind::LOA,
        Cmd::RES { .. } => CmdKind::RES,
        Cmd::NSE(..) => CmdKind::NSE,
        Cmd::NEW { .. } => CmdKind::NEW,
        Cmd::DEL { .. } => CmdKind::DEL,
        Cmd::CYC(..) => CmdKind::CYC,
        Cmd::VOL(..) => CmdKind::VOL,
        Cmd::REG { .. } => CmdKind::REG,
        Cmd::INF { .. } => CmdKind::INF,
        Cmd::HLP { .. } => CmdKind::HLP,
        Cmd::REM { .. } => CmdKind::REM,
        Cmd::EXI { .. } => CmdKind::EXI,
        Cmd::Custom { .. } => CmdKind::Custom,
    }
}

pub open spec fn word3(a: char, b: char, c: char) -> Seq<char> {
    seq![a, b, c]
}

/// The head word of a command in the uniform syntax.
pub open spec fn cmd_head(c: Cmd) -> Seq<char> {
    match c {
        Cmd::SAV { .. } => word3('S', 'A', 'V'),
        Cmd::LOA { .. } => word3('L', 'O', 'A'),
        Cmd::RES { .. } => word3('R', 'E', 'S'),
        Cmd::NSE(..) => word3('N', 'S', 'E'),
        Cmd::NEW { .. } => word3('N', 'E', 'W'),
        Cmd::DEL { .. } => word3('D', 'E', 'L'),
        Cmd::CYC(..) => word3('C', 'Y', 'C'),
        Cmd::VOL(..) => word3('V', 'O', 'L'),
        Cmd::REG { .. } => word3('R', 'E', 'G'),
        Cmd::INF { .. } => word3('I', 'N', 'F'),
        Cmd::HLP { .. } => word3('H', 'L', 'P'),
        Cmd::REM { .. } => word3('R', 'E', 'M'),
        Cmd::EXI { .. } => word3('E', 'X', 'I'),
        Cmd::Custom { head, .. } => head@,
    }
}

/// What follows the head of a command in the uniform syntax.
pub open spec fn cmd_tail(c: Cmd) -> Seq<char> {
    match c {
        Cmd::SAV { target, path } => target@ + seq![' '] + path@,
        Cmd::LOA { target, path } => target@ + seq![' '] + path@,
        Cmd::RES { target } => target@,
        Cmd::NSE(text) => text@,
        Cmd::NEW { target } => target@,
        Cmd::DEL { target } => target@,
        Cmd::CYC(n) => decimal(n as nat),
        Cmd::VOL(n) => decimal(n as nat),
        Cmd::REG { name } => name@,
        Cmd::INF { source } => source@,
        Cmd::HLP { name } => name@,
        Cmd::REM { comment } => comment@,
        Cmd::EXI { reason } => reason@,
        Cmd::Custom { tail, .. } => tail@,
    }
}

/// The uniform rendering of a command: head, a space, tail.
pub open spec fn cmd_text(c: Cmd) -> Seq<char> {
    cmd_head(c) + seq![' '] + cmd_tail(c)
}

fn word(w: &str) -> (r: String)
    ensures
        r@ == w@,
{
    String::from_str(w)
}

impl Cmd {
    pub fn kind(&self) -> (r: CmdKind)
        ensures
            r == kind_of_cmd(*self),
    {
        match self {
            Cmd::SAV { .. } => CmdKind::SAV,
            Cmd::LOA { .. } => CmdKind::LOA,
            Cmd::RES { .. } => CmdKind::RES,
            Cmd::NSE(..) => CmdKind::NSE,
            Cmd::NEW { .. } => CmdKind::NEW,
            Cmd::DEL { .. } => CmdKind::DEL,
            Cmd::CYC(..) => CmdKind::CYC,
            Cmd::VOL(..) => CmdKind::VOL,
            Cmd::REG { .. } => CmdKind::REG,
            Cmd::INF { .. } => CmdKind::INF,
            Cmd::HLP { .. } => CmdKind::HLP,
            Cmd::REM { .. } => CmdKind::REM,
            Cmd::EXI { .. } => CmdKind::EXI,
            Cmd::Custom { .. } => CmdKind::Custom,
        }
    }

    /// The head word of the command.
    pub fn head(&self) -> (r: String)
        ensures
            r@ == cmd_head(*self),
    {
        proof {
            reveal_strlit("SAV");
            reveal_strlit("LOA");
            reveal_strlit("RES");
            reveal_strlit("NSE");
            reveal_strlit("NEW");
            reveal_strlit("DEL");
            reveal_strlit("CYC");
            reveal_strlit("VOL");
            reveal_strlit("REG");
            reveal_strlit("INF");
            reveal_strlit("HLP");
            reveal_strlit("REM");
            reveal_strlit("EXI");
        }
        let r = match self {
            Cmd::SAV { .. } => word("SAV"),
            Cmd::LOA { .. } => word("LOA"),
            Cmd::RES { .. } => word("RES"),
            Cmd::NSE(..) => word("NSE"),
            Cmd::NEW { .. } => word("NEW"),
            Cmd::DEL { .. } => word("DEL"),
            Cmd::CYC(..) => word("CYC"),
            Cmd::VOL(..) => word("VOL"),
            Cmd::REG { .. } => word("REG"),
            Cmd::INF { .. } => word("INF"),
            Cmd::HLP { .. } => word("HLP"),
            Cmd::REM { .. } => word("REM"),
            Cmd::EXI { .. } => word("EXI"),
            Cmd::Custom { head, .. } => head.clone(),
        };
        assert(r@ =~= cmd_head(*self));
        r
    }

    /// What follows the head of the command.
    pub fn tail(&self) -> (r: String)
        ensures
            r@ == cmd_tail(*self),
    {
        proof {
            reveal_strlit(" ");
        }
        match self {
            Cmd::SAV { target, path } | Cmd::LOA { target, path } => {
                let r = target.clone().concat(" ").concat(path.as_str());
                r
            },
            Cmd::RES { target } | Cmd::NEW { target } | Cmd::DEL { target } => target.clone(),
            Cmd::NSE(text) => text.clone(),
            Cmd::CYC(n) | Cmd::VOL(n) => decimal_string(*n),
            Cmd::REG { name } | Cmd::HLP { name } => name.clone(),
            Cmd::INF { source } => source.clone(),
            Cmd::REM { comment } => comment.clone(),
            Cmd::EXI { reason } => reason.clone(),
            Cmd::Custom { tail, .. } => tail.clone(),
        }
    }

    /// The uniform rendering of the command.
    pub fn to_text(&self) -> (r: String)
        ensures
            r@ == cmd_text(*self),
    {
        proof {
            reveal_strlit(" ");
        }
        let t = self.tail();
        self.head().concat(" ").concat(t.as_str())
    }

    /// A copy of the command.
    pub fn duplicate(&self) -> (r: Cmd)
        ensures
            r == *self,
    {
        match self {
            Cmd::SAV { target, path } => Cmd::SAV { target: target.clone(), path: path.clone() },
            Cmd::LOA { target, path } => Cmd::LOA { target: target.clone(), path: path.clone() },
            Cmd::RES { target } => Cmd::RES { target: target.clone() },
            Cmd::NSE(text) => Cmd::NSE(text.clone()),
            Cmd::NEW { target } => Cmd::NEW { target: target.clone() },
            Cmd::DEL { target } => Cmd::DEL { target: target.clone() },
            Cmd::CYC(n) => Cmd::CYC(*n),
            Cmd::VOL(n) => Cmd::VOL(*n),
            Cmd::REG { name } => Cmd::REG { name: name.clone() },
            Cmd::INF { source } => Cmd::INF { source: source.clone() },
            Cmd::HLP { name } => Cmd::HLP { name: name.clone() },
            Cmd::REM { comment } => Cmd::REM { comment: comment.clone() },
            Cmd::EXI { reason } => Cmd::EXI { reason: reason.clone() },
            Cmd::Custom { head, tail } => Cmd::Custom { head: head.clone(), tail: tail.clone() },
        }
    }
}


// ----- output events -----
/// The kinds of uniform output events.
#[derive(Clone, Copy, PartialEq, Eq, Structural, Debug)]
pub enum OutputKind {
    Answer,
    Out,
    In,
    Exe,
    Error,
    Other,
    Terminated,
}

/// Model of an [`Operation`].
pub struct OperationModel {
    pub operator_name: Seq<char>,
    pub params: Seq<TermModel>,
}

/// An operation that an engine executes: operator name and arguments.
#[derive(Debug, PartialEq, Eq)]
pub struct Operation {
    pub operator_name: String,
    pub params: Vec<Term>,
}

impl View for Operation {
    type V = OperationModel;

    open spec fn view(&self) -> OperationModel {
        OperationModel { operator_name: self.operator_name@, params: terms_model(self.params@) }
    }
}

/// A uniform output event. Every variant but `TERMINATED` keeps the raw line.
#[derive(Debug, PartialEq, Eq)]
pub enum Output {
    ANSWER { content_raw: String, narsese: Option<Term> },
    OUT { content_raw: String, narsese: Option<Term> },
    IN { content: String },
    EXE { content_raw: String, operation: Operation },
    ERROR { description: String },
    OTHER { content: String },
    TERMINATED { description: String },
}

pub open spec fn output_kind(o: Output) -> OutputKind {
    match o {
        Output::ANSWER { .. } => OutputKind::Answer,
        Output::OUT { .. } => OutputKind::Out,
        Output::IN { .. } => OutputKind::In,
        Output::EXE { .. } => OutputKind::Exe,
        Output::ERROR { .. } => OutputKind::Error,
        Output::OTHER { .. } => OutputKind::Other,
        Output::TERMINATED { .. } => OutputKind::Terminated,
    }
}

/// The text that an event carries.
pub open spec fn output_raw(o: Output) -> Seq<char> {
    match o {
        Output::ANSWER { content_raw, .. } => content_raw@,
        Output::OUT { content_raw, .. } => content_raw@,
        Output::IN { content } => content@,
        Output::EXE { content_raw, .. } => content_raw@,
        Output::ERROR { description } => description@,
        Output::OTHER { content } => content@,
        Output::TERMINATED { description } => description@,
    }
}

pub open spec fn output_narsese(o: Output) -> Option<TermModel> {
    match o {
        Output::ANSWER { narsese: Some(t), .. } => Some(t@),
        Output::OUT { narsese: Some(t), .. } => Some(t@),
        _ => None,
    }
}

pub open spec fn output_operation(o: Output) -> Option<OperationModel> {
    match o {
        Output::EXE { operation, .. } => Some(operation@),
        _ => None,
    }
}

impl Output {
    pub fn kind(&self) -> (r: OutputKind)
        ensures
            r == output_kind(*self),
    {
        match self {
            Output::ANSWER { .. } => OutputKind::Answer,
            Output::OUT { .. } => OutputKind::Out,
            Output::IN { .. } => OutputKind::In,
            Output::EXE { .. } => OutputKind::Exe,
            Output::ERROR { .. } => OutputKind::Error,
            Output::OTHER { .. } => OutputKind::Other,
            Output::TERMINATED { .. } => OutputKind::Terminated,
        }
    }

    /// The text that the event carries.
    pub fn raw_content(&self) -> (r: &String)
        ensures
            r@ == output_raw(*self),
    {
        match self {
            Output::ANSWER { content_raw, .. } => content_raw,
            Output::OUT { content_raw, .. } => content_raw,
            Output::IN { content } => content,
            Output::EXE { content_raw, .. } => content_raw,
            Output::ERROR { description } => description,
            Output::OTHER { content } => content,
            Output::TERMINATED { description } => description,
        }
    }

    /// The parsed term of an answer or a derived belief, when there is one.
    pub fn get_narsese(&self) -> (r: Option<&Term>)
        ensures
            match r {
                Some(t) => output_narsese(*self) == Some(t@),
                None => output_narsese(*self) is None,
            },
    {
        match self {
            Output::ANSWER { narsese: Some(t), .. } => Some(t),
            Output::OUT { narsese: Some(t), .. } => Some(t),
            _ => None,
        }
    }

    /// The operation of an execution event.
    pub fn get_operation(&self) -> (r: Option<&Operation>)
        ensures
            match r {
                Some(op) => output_operation(*self) == Some(op@),
                None => output_operation(*self) is None,
            },
    {
        match self {
            Output::EXE { operation, .. } => Some(operation),
            _ => None,
        }
    }
}

// ----- header classification -----
/// Index of the first `:` at or after `i`, or the length when there is none.
pub open spec fn colon_index(s: Seq<char>, i: int) -> int
    decreases s.len() - i,
{
    if 0 <= i < s.len() {
        if s[i] == ':' {
            i
        } else {
            colon_index(s, i + 1)
        }
    } else {
        s.len() as int
    }
}

/// The header of a line: the text before its first colon; empty when it has none.
pub open spec fn head_of(s: Seq<char>) -> Seq<char> {
    let c = colon_index(s, 0);
    if c < s.len() {
        s.subrange(0, c)
    } else {
        Seq::empty()
    }
}

pub open spec fn answer_word() -> Seq<char> {
    seq!['a', 'n', 's', 'w', 'e', 'r']
}

pub open spec fn derived_word() -> Seq<char> {
    seq!['d', 'e', 'r', 'i', 'v', 'e', 'd']
}

pub open spec fn input_word() -> Seq<char> {
    seq!['i', 'n', 'p', 'u', 't']
}

pub open spec fn exe_word() -> Seq<char> {
    seq!['e', 'x', 'e']
}

pub open spec fn err_word() -> Seq<char> {
    seq!['e', 'r', 'r']
}

pub open spec fn error_word() -> Seq<char> {
    seq!['e', 'r', 'r', 'o', 'r']
}

/// The kind that a lower-cased header stands for; any other header is `Other`.
pub open spec fn header_kind(h: Seq<char>) -> OutputKind {
    if h == answer_word() {
        OutputKind::Answer
    } else if h == derived_word() {
        OutputKind::Out
    } else if h == input_word() {
        OutputKind::In
    } else if h == exe_word() {
        OutputKind::Exe
    } else if h == err_word() || h == error_word() {
        OutputKind::Error
    } else {
        OutputKind::Other
    }
}

/// What `str::to_lowercase` gives on a text.
pub uninterp spec fn lower_of(s: Seq<char>) -> Seq<char>;

/// Relies on `str::to_lowercase`: the lower-case mapping of a text, which depends on its
/// characters alone.
#[verifier::external_body]
pub(crate) fn lowercase(s: &str) -> (r: String)
    ensures
        r@ == lower_of(s@),
{
    s.to_lowercase()
}

/// Whether two texts hold the same characters.
pub fn same_text(a: &str, b: &str) -> (r: bool)
    ensures
        r == (a@ == b@),
{
    let n = a.unicode_len();
    if n != b.unicode_len() {
        return false;
    }
    let mut i: usize = 0;
    while i < n
        invariant
            n == a@.len() == b@.len(),
            i <= n,
            a@.subrange(0, i as int) == b@.subrange(0, i as int),
        decreases n - i,
    {
        if a.get_char(i) != b.get_char(i) {
            assert(a@[i as int] != b@[i as int]);
            return false;
        }
        assert(a@.subrange(0, i + 1) =~= a@.subrange(0, i as int).push(a@[i as int]));
        assert(b@.subrange(0, i + 1) =~= b@.subrange(0, i as int).push(b@[i as int]));
        i = i + 1;
    }
    assert(a@ =~= a@.subrange(0, n as int));
    assert(b@ =~= b@.subrange(0, n as int));
    true
}

/// The header of a line: the text before its first colon, or the empty text.
pub fn header(line: &str) -> (r: String)
    ensures
        r@ == head_of(line@),
{
    let n = line.unicode_len();
    let mut i: usize = 0;
    while i < n && line.get_char(i) != ':'
        invariant
            n == line@.len(),
            i <= n,
            colon_index(line@, i as int) == colon_index(line@, 0),
        decreases n - i,
    {
        i = i + 1;
    }
    if i < n {
        String::from_str(line.substring_char(0, i))
    } else {
        String::new()
    }
}

/// Classifies a header that is already lower-cased.
pub fn classify_header(lowered: &str) -> (r: OutputKind)
    ensures
        r == header_kind(lowered@),
{
    proof {
        reveal_strlit("answer");
        reveal_strlit("derived");
        reveal_strlit("input");
        reveal_strlit("exe");
        reveal_strlit("err");
        reveal_strlit("error");
        assert("answer"@ =~= answer_word());
        assert("derived"@ =~= derived_word());
        assert("input"@ =~= input_word());
        assert("exe"@ =~= exe_word());
        assert("err"@ =~= err_word());
        assert("error"@ =~= error_word());
    }
    if same_text(lowered, "answer") {
        OutputKind::Answer
    } else if same_text(lowered, "derived") {
        OutputKind::Out
    } else if same_text(lowered, "input") {
        OutputKind::In
    } else if same_text(lowered, "exe") {
        OutputKind::Exe
    } else if same_text(lowered, "err") || same_text(lowered, "error") {
        OutputKind::Error
    } else {
        OutputKind::Other
    }
}

/// Classifies a line by its lower-cased header.
pub fn classify(line: &str) -> (r: OutputKind)
    ensures
        r == header_kind(lower_of(head_of(line@))),
{
    let h = header(line);
    let lowered = lowercase(h.as_str());
    classify_header(lowered.as_str())
}

// ----- translators -----
/// A command or a line that a translator cannot render.
#[derive(Clone, Copy, PartialEq, Eq, Structural, Debug)]
pub enum TranslateError {
    /// The command kind has no rendering in the engine's dialect.
    Unsupported(CmdKind),
}

/// The text that the ONA shell takes for a command: Narsese as it is, a cycle count as a
/// bare number, a volume as `*volume=N`; no other kind has a rendering.
pub open spec fn ona_input(c: Cmd) -> Option<Seq<char>> {
    match c {
        Cmd::NSE(text) => Some(text@),
        Cmd::CYC(n) => Some(decimal(n as nat)),
        Cmd::VOL(n) => Some(seq!['*', 'v', 'o', 'l', 'u', 'm', 'e', '='] + decimal(n as nat)),
        _ => None,
    }
}

/// Translates a command into the ONA shell's input.
pub fn input_translate(cmd: Cmd) -> (r: Result<String, TranslateError>)
    ensures
        match r {
            Ok(text) => ona_input(cmd) == Some(text@),
            Err(e) => ona_input(cmd) is None && e == TranslateError::Unsupported(kind_of_cmd(cmd)),
        },
{
    proof {
        reveal_strlit("*volume=");
        assert("*volume="@ =~= seq!['*', 'v', 'o', 'l', 'u', 'm', 'e', '=']);
    }
    match cmd {
        Cmd::NSE(text) => Ok(text),
        Cmd::CYC(n) => Ok(decimal_string(n)),
        Cmd::VOL(n) => {
            let d = decimal_string(n);
            Ok(String::from_str("*volume=").concat(d.as_str()))
        },
        _ => Err(TranslateError::Unsupported(cmd.kind())),
    }
}

/// The operation that an execution event carries when the dialect gives none.
pub open spec fn unknown_operation() -> OperationModel {
    OperationModel { operator_name: seq!['U', 'N', 'K', 'N', 'O', 'W', 'N'], params: Seq::empty() }
}

/// The event that the ONA shell's line `content` becomes: its kind comes from the
/// lower-cased header, it keeps the line, it carries no parsed term, and an execution carries
/// the unknown operation.
pub open spec fn ona_output(content: Seq<char>, o: Output) -> bool {
    &&& output_kind(o) == header_kind(lower_of(head_of(content)))
    &&& output_raw(o) == content
    &&& output_narsese(o) is None
    &&& output_kind(o) == OutputKind::Exe ==> output_operation(o) == Some(unknown_operation())
}

/// Translates a line of the ONA shell into an output event, by its header. Every line gives
/// an event: lines with an unknown header, or none, are `OTHER`.
pub fn output_translate(content: String) -> (r: Result<Output, TranslateError>)
    ensures
        r is Ok,
        ona_output(content@, r->Ok_0),
{
    let kind = classify(content.as_str());
    let output = match kind {
        OutputKind::Answer => Output::ANSWER { content_raw: content, narsese: None },
        OutputKind::Out => Output::OUT { content_raw: content, narsese: None },
        OutputKind::In => Output::IN { content },
        OutputKind::Exe => {
            proof {
                reveal_strlit("UNKNOWN");
            }
            let operation = Operation { operator_name: String::from_str("UNKNOWN"), params: Vec::new() };
            assert(operation@.params =~= Seq::<TermModel>::empty());
            assert(operation@.operator_name =~= unknown_operation().operator_name);
            Output::EXE { content_raw: content, operation }
        },
        OutputKind::Error => Output::ERROR { description: content },
        _ => Output::OTHER { content },
    };
    Ok(output)
}

/// The input translation used when none is configured: the command's uniform rendering.
pub fn default_input_translate(cmd: Cmd) -> (r: Result<String, TranslateError>)
    ensures
        r is Ok,
        r->Ok_0@ == cmd_text(cmd),
{
    Ok(cmd.to_text())
}

/// The output translation used when none is configured: every line is `OTHER`.
pub fn default_output_translate(content: String) -> (r: Result<Output, TranslateError>)
    ensures
        r == Ok::<Output, TranslateError>(Output::OTHER { content }),
{
    Ok(Output::OTHER { content })
}

} // verus!

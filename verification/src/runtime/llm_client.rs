//! The local model client: which transport answers a prompt, and how.
use vstd::prelude::*;
use crate::text;

verus! {

/// How the local model is reached.
#[derive(Debug, Clone)]
pub enum LocalTransport {
    /// A local program that reads the prompt on its standard input and
    /// answers with one line.
    Stdio { command: String, args: Vec<String> },
    /// A local HTTP server that takes `{"prompt": ..}` and answers
    /// `{"output": ..}`.
    Http { endpoint: String },
    /// No model: a fixed answer.
    FfiStub,
}

/// What must be done to get the model's answer to a prompt.
#[derive(Debug, Clone)]
pub enum InferenceStep {
    /// Run `command` with `args`, write `input` to it and take the first
    /// line it prints.
    RunCommand { command: String, args: Vec<String>, input: String },
    /// Post `prompt` to `endpoint`.
    PostJson { endpoint: String, prompt: String },
    /// The answer is already known.
    Answer(String),
}

pub open spec fn default_http_endpoint() -> Seq<char> {
    "http://127.0.0.1:11434/infer"@
}

/// The answer of the stub transport.
pub open spec fn ffi_stub_answer_of(prompt: Seq<char>) -> Seq<char> {
    "[ffi stub] summary unavailable for prompt of "@ + text::decimal(text::utf8_len(prompt)) + " chars"@
}

/// The answer of the stub transport, which names the length of the prompt
/// in bytes.
pub fn ffi_stub_answer(prompt: &str) -> (r: String)
    ensures
        r@ == ffi_stub_answer_of(prompt@),
{
    let cs = text::chars_of(prompt);
    let n = text::utf8_len_exec(cs.as_slice());
    let mut r = String::from_str("[ffi stub] summary unavailable for prompt of ");
    let digits = text::decimal_string(n);
    r.append(digits.as_str());
    r.append(" chars");
    proof {
        reveal_strlit("[ffi stub] summary unavailable for prompt of ");
        reveal_strlit(" chars");
    }
    r
}

/// The answer read from a command: its first line, trimmed.
pub fn stdio_answer(line: &str) -> (r: String)
    ensures
        r@ == text::trim(line@),
{
    let cs = text::chars_of(line);
    let (a, b) = text::trim_bounds(cs.as_slice());
    text::string_of_range(line, cs.as_slice(), a, b)
}

impl LocalTransport {
    /// The transport a backend name selects: `ffi`, `http` (the local
    /// server at `127.0.0.1:11434`) or `stdio` (`cat`, which echoes the prompt);
    /// `None` for any other name.
    pub fn from_backend_name(name: &str) -> (t: Option<LocalTransport>)
        ensures
            name@ == "ffi"@ ==> t matches Some(LocalTransport::FfiStub),
            name@ == "http"@ ==> (t matches Some(LocalTransport::Http { endpoint }) && endpoint@
                == default_http_endpoint()),
            name@ == "stdio"@ ==> (t matches Some(LocalTransport::Stdio { command, args }) && command@
                == "cat"@ && args@.len() == 0),
            !(name@ == "ffi"@ || name@ == "http"@ || name@ == "stdio"@) ==> t is None,
    {
        proof {
            reveal_strlit("ffi");
            reveal_strlit("http");
            reveal_strlit("stdio");
            reveal_strlit("cat");
            reveal_strlit("http://127.0.0.1:11434/infer");
            assert("http"@.len() != "ffi"@.len());
            assert("stdio"@.len() != "ffi"@.len());
            assert("stdio"@.len() != "http"@.len());
        }
        let n = String::from_str(name);
        if n == String::from_str("ffi") {
            Some(LocalTransport::FfiStub)
        } else if n == String::from_str("http") {
            Some(LocalTransport::Http { endpoint: String::from_str("http://127.0.0.1:11434/infer") })
        } else if n == String::from_str("stdio") {
            Some(LocalTransport::Stdio { command: String::from_str("cat"), args: Vec::new() })
        } else {
            None
        }
    }

    /// What getting an answer to `prompt` takes on this transport.
    pub fn plan(&self, prompt: &str) -> (s: InferenceStep)
        ensures
            match (self, s) {
                (LocalTransport::Stdio { command, args }, InferenceStep::RunCommand { command: c, args: a, input }) => {
                    &&& c@ == command@
                    &&& a.deep_view() == args.deep_view()
                    &&& input@ == prompt@ + "\n"@
                },
                (LocalTransport::Http { endpoint }, InferenceStep::PostJson { endpoint: e, prompt: p }) => {
                    &&& e@ == endpoint@
                    &&& p@ == prompt@
                },
                (LocalTransport::FfiStub, InferenceStep::Answer(a)) => a@ == ffi_stub_answer_of(prompt@),
                _ => false,
            },
    {
        match self {
            LocalTransport::Stdio { command, args } => {
                let mut input = String::from_str(prompt);
                input.append("\n");
                proof {
                    reveal_strlit("\n");
                }
                let mut copied: Vec<String> = Vec::new();
                let mut i: usize = 0;
                while i < args.len()
                    invariant
                        i <= args@.len(),
                        copied.deep_view() == args.deep_view().take(i as int),
                    decreases args@.len() - i,
                {
                    let a = args[i].clone();
                    let ghost prev = copied.deep_view();
                    copied.push(a);
                    assert(copied.deep_view() =~= prev.push(a@));
                    assert(copied.deep_view() =~= args.deep_view().take(i + 1));
                    i = i + 1;
                }
                assert(args.deep_view().take(i as int) =~= args.deep_view());
                InferenceStep::RunCommand { command: command.clone(), args: copied, input }
            },
            LocalTransport::Http { endpoint } => InferenceStep::PostJson {
                endpoint: endpoint.clone(),
                prompt: String::from_str(prompt),
            },
            LocalTransport::FfiStub => InferenceStep::Answer(ffi_stub_answer(prompt)),
        }
    }
}


/// The HTTP transport that a backend name selects talks to the loopback
/// address only: the host of its endpoint is `127.0.0.1`, which is local
/// whatever hosts are allowed.
pub proof fn lemma_default_endpoint_is_local(allowed: Seq<Seq<char>>)
    ensures
        crate::runtime::validator::endpoint_host_part(default_http_endpoint()) == Some("127.0.0.1"@),
        crate::runtime::validator::is_local(
            crate::runtime::validator::host_or_empty(default_http_endpoint()),
            allowed,
        ),
{
    reveal_strlit("http://127.0.0.1:11434/infer");
    reveal_strlit("//");
    reveal_strlit("127.0.0.1");
    reveal_strlit("localhost");
    reveal_strlit("::1");
    let s = default_http_endpoint();
    let sep = "//"@;
    assert(s.len() == 28);
    assert forall|i: int| 0 <= i < 5 implies !text::occurs_at(s, sep, i) by {
        assert(s.subrange(i, i + 2)[0] == s[i]);
    }
    assert(s.subrange(5, 7) =~= sep);
    assert(text::find_from(s, sep, 4) == text::find_from(s, sep, 5));
    assert(text::find_from(s, sep, 3) == text::find_from(s, sep, 4));
    assert(text::find_from(s, sep, 2) == text::find_from(s, sep, 3));
    assert(text::find_from(s, sep, 1) == text::find_from(s, sep, 2));
    assert(text::find_from(s, sep, 0) == Some(5int));
    let after = s.skip(7);
    text::lemma_find_from_bounds(after, sep, 0);
    assert(after.len() == 21);
    assert forall|i: int| 0 <= i && i + 2 <= after.len() implies !text::occurs_at(after, sep, i) by {
        assert(after.subrange(i, i + 2)[0] == after[i]);
        assert(after.subrange(i, i + 2)[1] == after[i + 1]);
        assert(after[i] == s[i + 7]);
        assert(after[i + 1] == s[i + 8]);
    }
    assert(text::first_piece(after, sep) == after);
    let slash = seq!['/'];
    text::lemma_find_from_bounds(after, slash, 0);
    assert(after.subrange(15, 16) =~= slash);
    assert forall|i: int| 0 <= i < 15 implies !text::occurs_at(after, slash, i) by {
        assert(after.subrange(i, i + 1)[0] == after[i]);
        assert(after[i] == s[i + 7]);
    }
    assert(text::occurs_at(after, slash, 15));
    assert(text::find_from(after, slash, 0) == Some(15int));
    let a = text::first_piece(after, slash);
    assert(a =~= after.take(15));
    let colon = seq![':'];
    text::lemma_find_from_bounds(a, colon, 0);
    assert(a.subrange(9, 10) =~= colon);
    assert forall|i: int| 0 <= i < 9 implies !text::occurs_at(a, colon, i) by {
        assert(a.subrange(i, i + 1)[0] == a[i]);
        assert(a[i] == s[i + 7]);
    }
    assert(text::occurs_at(a, colon, 9));
    assert(text::find_from(a, colon, 0) == Some(9int));
    assert(text::first_piece(a, colon) =~= "127.0.0.1"@);
}

} // verus!

//! The runtime configuration and its parser for the small TOML subset the
//! configuration files use.
use vstd::prelude::*;
use crate::text;

verus! {

/// What the runtime may reach and what it needs to run.
#[derive(Debug, Clone)]
pub struct AppConfig {
    pub network_enabled: bool,
    pub allowed_hosts: Vec<String>,
    pub endpoints: Vec<String>,
    pub model_files: Vec<String>,
    pub remote_api_keys_required: bool,
}

pub struct AppConfigView {
    pub network_enabled: bool,
    pub allowed_hosts: Seq<Seq<char>>,
    pub endpoints: Seq<Seq<char>>,
    pub model_files: Seq<Seq<char>>,
    pub remote_api_keys_required: bool,
}

impl View for AppConfig {
    type V = AppConfigView;

    open spec fn view(&self) -> AppConfigView {
        AppConfigView {
            network_enabled: self.network_enabled,
            allowed_hosts: self.allowed_hosts.deep_view(),
            endpoints: self.endpoints.deep_view(),
            model_files: self.model_files.deep_view(),
            remote_api_keys_required: self.remote_api_keys_required,
        }
    }
}

/// The configuration used where a file says nothing: networking on, the
/// loopback names allowed, no endpoints, no model files, no remote keys.
pub open spec fn default_config() -> AppConfigView {
    AppConfigView {
        network_enabled: true,
        allowed_hosts: seq!["127.0.0.1"@, "localhost"@],
        endpoints: Seq::empty(),
        model_files: Seq::empty(),
        remote_api_keys_required: false,
    }
}

impl Default for AppConfig {
    fn default() -> (cfg: Self)
        ensures
            cfg@ == default_config(),
    {
        let mut allowed_hosts: Vec<String> = Vec::new();
        allowed_hosts.push(String::from_str("127.0.0.1"));
        allowed_hosts.push(String::from_str("localhost"));
        proof {
            reveal_strlit("127.0.0.1");
            reveal_strlit("localhost");
            assert(allowed_hosts.deep_view() =~= seq!["127.0.0.1"@, "localhost"@]);
        }
        let cfg = AppConfig {
            network_enabled: true,
            allowed_hosts,
            endpoints: Vec::new(),
            model_files: Vec::new(),
            remote_api_keys_required: false,
        };
        proof {
            assert(cfg.endpoints.deep_view() =~= Seq::<Seq<char>>::empty());
            assert(cfg.model_files.deep_view() =~= Seq::<Seq<char>>::empty());
        }
        cfg
    }
}

/// One entry of a string array: trimmed, then stripped of quotes.
pub open spec fn array_entry(piece: Seq<char>) -> Seq<char> {
    text::strip_end_char(text::strip_start_char(text::trim(piece), '"'), '"')
}

/// The non-empty entries of the comma-separated pieces, in order.
pub open spec fn array_entries(pieces: Seq<Seq<char>>) -> Seq<Seq<char>>
    decreases pieces.len(),
{
    if pieces.len() == 0 {
        Seq::empty()
    } else {
        let rest = array_entries(pieces.drop_last());
        let entry = array_entry(pieces.last());
        if entry.len() > 0 {
            rest.push(entry)
        } else {
            rest
        }
    }
}

/// The inside of a `[..]` array: trimmed, stripped of the brackets.
pub open spec fn array_body(raw: Seq<char>) -> Seq<char> {
    text::strip_end_char(text::strip_start_char(text::trim(raw), '['), ']')
}

/// The strings of an array such as `["a", "b"]`: the body split on commas,
/// each piece trimmed and unquoted, the empty ones left out.
pub open spec fn string_array(raw: Seq<char>) -> Seq<Seq<char>> {
    array_entries(text::split_char(array_body(raw), ','))
}

} // verus!

verus! {

/// The strings of the array written in `cs[lo..hi]`, which are characters
/// of `s`.
fn string_array_in(s: &str, cs: &[char], lo: usize, hi: usize) -> (r: Vec<String>)
    requires
        cs@ == s@,
        lo <= hi <= cs@.len(),
    ensures
        r.deep_view() == string_array(cs@.subrange(lo as int, hi as int)),
{
    let (t0, t1) = text::trim_range(cs, lo, hi);
    let (p, q) = text::strip_range(cs, t0, t1, '[', ']');
    let ghost body = cs@.subrange(p as int, q as int);
    assert(body == array_body(cs@.subrange(lo as int, hi as int)));
    let mut out: Vec<String> = Vec::new();
    let mut pos = p;
    let ghost mut done: Seq<Seq<char>> = Seq::empty();
    assert(cs@.subrange(pos as int, q as int) == body);
    loop
        invariant_except_break
            cs@ == s@,
            q <= cs@.len(),
            body == cs@.subrange(p as int, q as int),
            p <= pos <= q,
            text::split_char(body, ',') == done + text::split_char(cs@.subrange(pos as int, q as int), ','),
            out.deep_view() == array_entries(done),
        ensures
            out.deep_view() == array_entries(text::split_char(body, ',')),
        decreases q - pos,
    {
        let ghost rest = cs@.subrange(pos as int, q as int);
        let found = text::find_char_in(cs, ',', pos, q);
        let end = match found {
            Some(i) => i,
            None => q,
        };
        let (a, b) = text::trim_range(cs, pos, end);
        let (x, y) = text::strip_range(cs, a, b, '"', '"');
        let ghost piece = cs@.subrange(pos as int, end as int);
        assert(cs@.subrange(x as int, y as int) == array_entry(piece));
        let ghost before = out.deep_view();
        if x < y {
            let entry = text::string_of_range(s, cs, x, y);
            out.push(entry);
            assert(out.deep_view() =~= before.push(array_entry(piece)));
        }
        proof {
            assert((done.push(piece)).drop_last() =~= done);
        }
        match found {
            Some(i) => {
                proof {
                    text::lemma_find_from_bounds(rest, seq![','], 0);
                    assert(rest.take(i - pos) =~= piece);
                    assert(rest.skip(i - pos + 1) =~= cs@.subrange(i + 1, q as int));
                    assert(text::split_char(rest, ',') == seq![piece] + text::split_char(
                        cs@.subrange(i + 1, q as int),
                        ',',
                    ));
                    assert(done + text::split_char(rest, ',') =~= done.push(piece)
                        + text::split_char(cs@.subrange(i + 1, q as int), ','));
                    done = done.push(piece);
                }
                pos = i + 1;
            },
            None => {
                proof {
                    assert(piece == rest);
                    assert(text::split_char(rest, ',') == seq![piece]);
                    assert(done + seq![piece] =~= done.push(piece));
                    done = done.push(piece);
                }
                break;
            },
        }
    }
    out
}

/// The strings of an array such as `["a", "b"]`.
pub fn parse_string_array(raw: &str) -> (r: Vec<String>)
    ensures
        r.deep_view() == string_array(raw@),
{
    let cs = text::chars_of(raw);
    assert(cs@.subrange(0, cs@.len() as int) =~= cs@);
    string_array_in(raw, cs.as_slice(), 0, cs.len())
}

} // verus!

verus! {

/// The value after the first `=` of a setting, up to a second `=` if any:
/// what `split('=').nth(1)` gives.
pub open spec fn setting_value(rest: Seq<char>) -> Option<Seq<char>> {
    text::second_piece(rest, seq!['='])
}

/// A boolean setting holds when its value, trimmed, is `true`.
pub open spec fn flag_setting(rest: Seq<char>) -> bool {
    match setting_value(rest) {
        Some(v) => text::trim(v) == "true"@,
        None => false,
    }
}

/// A list setting: the string array in its value, empty when there is no
/// value.
pub open spec fn list_setting(rest: Seq<char>) -> Seq<Seq<char>> {
    match setting_value(rest) {
        Some(v) => string_array(v),
        None => string_array(Seq::empty()),
    }
}

/// What one line of a configuration file does to the configuration. Blank
/// lines and `#` comments change nothing; a line that starts with a known
/// key sets that key; any other line is ignored.
pub open spec fn apply_line(cfg: AppConfigView, raw: Seq<char>) -> AppConfigView {
    let line = text::trim(raw);
    if line.len() == 0 || line[0] == '#' {
        cfg
    } else if text::starts_with(line, "network_enabled"@) {
        AppConfigView { network_enabled: flag_setting(line.skip(15)), ..cfg }
    } else if text::starts_with(line, "allowed_hosts"@) {
        AppConfigView { allowed_hosts: list_setting(line.skip(13)), ..cfg }
    } else if text::starts_with(line, "endpoints"@) {
        AppConfigView { endpoints: list_setting(line.skip(9)), ..cfg }
    } else if text::starts_with(line, "model_files"@) {
        AppConfigView { model_files: list_setting(line.skip(11)), ..cfg }
    } else if text::starts_with(line, "remote_api_keys_required"@) {
        AppConfigView { remote_api_keys_required: flag_setting(line.skip(24)), ..cfg }
    } else {
        cfg
    }
}

/// The lines applied one after the other.
pub open spec fn apply_lines(cfg: AppConfigView, lines: Seq<Seq<char>>) -> AppConfigView
    decreases lines.len(),
{
    if lines.len() == 0 {
        cfg
    } else {
        apply_line(apply_lines(cfg, lines.drop_last()), lines.last())
    }
}

/// The configuration a file's text describes: the defaults, changed by each
/// line in turn. (Splitting on `\n` and trimming each piece handles the
/// lines exactly as `str::lines` followed by `trim` does.)
pub open spec fn parse_config(text: Seq<char>) -> AppConfigView {
    apply_lines(default_config(), text::split_char(text, '\n'))
}

/// The value of a boolean setting whose text after the key is `cs[lo..hi]`.
fn flag_in(cs: &[char], lo: usize, hi: usize, true_word: &[char]) -> (b: bool)
    requires
        lo <= hi <= cs@.len(),
        true_word@ == "true"@,
    ensures
        b == flag_setting(cs@.subrange(lo as int, hi as int)),
{
    match text::second_piece_range(cs, lo, hi, '=') {
        Some((a, b)) => {
            let (x, y) = text::trim_range(cs, a, b);
            text::range_equals(cs, x, y, true_word)
        },
        None => false,
    }
}

/// The value of a list setting whose text after the key is `cs[lo..hi]`.
fn list_in(s: &str, cs: &[char], lo: usize, hi: usize) -> (r: Vec<String>)
    requires
        cs@ == s@,
        lo <= hi <= cs@.len(),
    ensures
        r.deep_view() == list_setting(cs@.subrange(lo as int, hi as int)),
{
    match text::second_piece_range(cs, lo, hi, '=') {
        Some((a, b)) => string_array_in(s, cs, a, b),
        None => {
            assert(cs@.subrange(lo as int, lo as int) =~= Seq::<char>::empty());
            string_array_in(s, cs, lo, lo)
        },
    }
}

/// The keys a configuration line may start with, as characters.
struct Keys {
    network_enabled: Vec<char>,
    allowed_hosts: Vec<char>,
    endpoints: Vec<char>,
    model_files: Vec<char>,
    remote_api_keys_required: Vec<char>,
    true_word: Vec<char>,
}

impl Keys {
    spec fn wf(&self) -> bool {
        &&& self.network_enabled@ == "network_enabled"@
        &&& self.allowed_hosts@ == "allowed_hosts"@
        &&& self.endpoints@ == "endpoints"@
        &&& self.model_files@ == "model_files"@
        &&& self.remote_api_keys_required@ == "remote_api_keys_required"@
        &&& self.true_word@ == "true"@
    }

    fn new() -> (k: Keys)
        ensures
            k.wf(),
    {
        Keys {
            network_enabled: text::chars_of("network_enabled"),
            allowed_hosts: text::chars_of("allowed_hosts"),
            endpoints: text::chars_of("endpoints"),
            model_files: text::chars_of("model_files"),
            remote_api_keys_required: text::chars_of("remote_api_keys_required"),
            true_word: text::chars_of("true"),
        }
    }
}

/// Applies the line `cs[lo..hi]` to `cfg`.
fn apply_line_in(cfg: &mut AppConfig, s: &str, cs: &[char], lo: usize, hi: usize, keys: &Keys)
    requires
        cs@ == s@,
        lo <= hi <= cs@.len(),
        keys.wf(),
    ensures
        final(cfg)@ == apply_line(old(cfg)@, cs@.subrange(lo as int, hi as int)),
{
    proof {
        reveal_strlit("network_enabled");
        reveal_strlit("allowed_hosts");
        reveal_strlit("endpoints");
        reveal_strlit("model_files");
        reveal_strlit("remote_api_keys_required");
        reveal_strlit("true");
    }
    let (a, b) = text::trim_range(cs, lo, hi);
    let ghost line = cs@.subrange(a as int, b as int);
    if a == b || cs[a] == '#' {
        return;
    }
    assert(line[0] == cs@[a as int]);
    if text::range_starts_with(cs, a, b, keys.network_enabled.as_slice()) {
        assert(line.skip(15) =~= cs@.subrange(a + 15, b as int));
        cfg.network_enabled = flag_in(cs, a + 15, b, keys.true_word.as_slice());
    } else if text::range_starts_with(cs, a, b, keys.allowed_hosts.as_slice()) {
        assert(line.skip(13) =~= cs@.subrange(a + 13, b as int));
        cfg.allowed_hosts = list_in(s, cs, a + 13, b);
    } else if text::range_starts_with(cs, a, b, keys.endpoints.as_slice()) {
        assert(line.skip(9) =~= cs@.subrange(a + 9, b as int));
        cfg.endpoints = list_in(s, cs, a + 9, b);
    } else if text::range_starts_with(cs, a, b, keys.model_files.as_slice()) {
        assert(line.skip(11) =~= cs@.subrange(a + 11, b as int));
        cfg.model_files = list_in(s, cs, a + 11, b);
    } else if text::range_starts_with(cs, a, b, keys.remote_api_keys_required.as_slice()) {
        assert(line.skip(24) =~= cs@.subrange(a + 24, b as int));
        cfg.remote_api_keys_required = flag_in(cs, a + 24, b, keys.true_word.as_slice());
    }
}

impl AppConfig {
    /// The configuration that the text of a configuration file describes.
    pub fn from_toml_text(s: &str) -> (cfg: AppConfig)
        ensures
            cfg@ == parse_config(s@),
    {
        let keys = Keys::new();
        let cs = text::chars_of(s);
        let n = cs.len();
        let mut cfg = AppConfig::default();
        let mut pos: usize = 0;
        let ghost mut done: Seq<Seq<char>> = Seq::empty();
        assert(cs@.subrange(0, n as int) =~= cs@);
        loop
            invariant_except_break
                cs@ == s@,
                n == cs@.len(),
                keys.wf(),
                pos <= n,
                text::split_char(s@, '\n') == done + text::split_char(cs@.subrange(pos as int, n as int), '\n'),
                cfg@ == apply_lines(default_config(), done),
            ensures
                cfg@ == apply_lines(default_config(), text::split_char(s@, '\n')),
            decreases n - pos,
        {
            let ghost rest = cs@.subrange(pos as int, n as int);
            let found = text::find_char_in(cs.as_slice(), '\n', pos, n);
            let end = match found {
                Some(i) => i,
                None => n,
            };
            let ghost piece = cs@.subrange(pos as int, end as int);
            apply_line_in(&mut cfg, s, cs.as_slice(), pos, end, &keys);
            proof {
                assert((done.push(piece)).drop_last() =~= done);
            }
            match found {
                Some(i) => {
                    proof {
                        text::lemma_find_from_bounds(rest, seq!['\n'], 0);
                        assert(rest.take(i - pos) =~= piece);
                        assert(rest.skip(i - pos + 1) =~= cs@.subrange(i + 1, n as int));
                        assert(done + text::split_char(rest, '\n') =~= done.push(piece)
                            + text::split_char(cs@.subrange(i + 1, n as int), '\n'));
                        done = done.push(piece);
                    }
                    pos = i + 1;
                },
                None => {
                    proof {
                        assert(piece == rest);
                        assert(done + seq![piece] =~= done.push(piece));
                        done = done.push(piece);
                    }
                    break;
                },
            }
        }
        cfg
    }
}


proof fn lemma_entries_clean(pieces: Seq<Seq<char>>)
    ensures
        forall|i: int|
            0 <= i < array_entries(pieces).len() ==> {
                let e = #[trigger] array_entries(pieces)[i];
                &&& e.len() > 0
                &&& e[0] != '"'
                &&& e.last() != '"'
            },
    decreases pieces.len(),
{
    if pieces.len() > 0 {
        lemma_entries_clean(pieces.drop_last());
        let p = text::trim(pieces.last());
        let a = text::strip_start_char(p, '"');
        text::lemma_strip_char(p, '"');
        text::lemma_strip_char(a, '"');
        let e = text::strip_end_char(a, '"');
        assert(e == array_entry(pieces.last()));
        if e.len() > 0 {
            assert(e[0] == a[0]);
        }
        let rest = array_entries(pieces.drop_last());
        assert forall|i: int| 0 <= i < array_entries(pieces).len() implies {
            let x = #[trigger] array_entries(pieces)[i];
            &&& x.len() > 0
            &&& x[0] != '"'
            &&& x.last() != '"'
        } by {
            if e.len() > 0 && i == rest.len() {
                assert(array_entries(pieces)[i] == e);
            } else {
                assert(array_entries(pieces)[i] == rest[i]);
            }
        }
    }
}

/// Every string read from an array is non-empty and has no quote at either
/// end.
pub proof fn lemma_string_array_entries(raw: Seq<char>)
    ensures
        forall|i: int|
            0 <= i < string_array(raw).len() ==> {
                let e = #[trigger] string_array(raw)[i];
                &&& e.len() > 0
                &&& e[0] != '"'
                &&& e.last() != '"'
            },
{
    lemma_entries_clean(text::split_char(array_body(raw), ','));
}

/// A blank line or a comment changes nothing, and any line changes at most
/// the one setting whose key it starts with.
pub proof fn lemma_config_line_changes_one_key(cfg: AppConfigView, raw: Seq<char>)
    ensures
        ({
            let line = text::trim(raw);
            let w = apply_line(cfg, raw);
            &&& (line.len() == 0 || line[0] == '#') ==> w == cfg
            &&& w.network_enabled != cfg.network_enabled ==> text::starts_with(line, "network_enabled"@)
            &&& w.allowed_hosts != cfg.allowed_hosts ==> text::starts_with(line, "allowed_hosts"@)
            &&& w.endpoints != cfg.endpoints ==> text::starts_with(line, "endpoints"@)
            &&& w.model_files != cfg.model_files ==> text::starts_with(line, "model_files"@)
            &&& w.remote_api_keys_required != cfg.remote_api_keys_required ==> text::starts_with(
                line,
                "remote_api_keys_required"@,
            )
        }),
{
}

} // verus!

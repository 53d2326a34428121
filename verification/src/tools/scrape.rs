//! Ingestion of local documents, allowed only by policy and only from
//! `file://` URIs.
use vstd::prelude::*;
use crate::text;

verus! {

pub open spec fn scrape_disabled_message() -> Seq<char> {
    "scrape disabled by policy"@
}

pub open spec fn not_local_file_message() -> Seq<char> {
    "only local file:// ingestion is permitted in local-only scrape mode"@
}

/// Where an ingestion of `uri` reads from: refused when scraping is off or
/// the URI is not a `file://` URI; otherwise the path after the scheme
/// (every leading `file://` removed).
pub open spec fn ingest_target_of(enabled: bool, uri: Seq<char>) -> Result<Seq<char>, Seq<char>> {
    if !enabled {
        Err(scrape_disabled_message())
    } else if text::starts_with(uri, "file://"@) {
        Ok(text::strip_start_seq(uri, "file://"@))
    } else {
        Err(not_local_file_message())
    }
}

/// Reads local documents on request, when policy allows.
#[derive(Debug, Clone)]
pub struct ScrapeTool {
    pub enabled: bool,
}

impl ScrapeTool {
    pub fn new(enabled: bool) -> (t: Self)
        ensures
            t.enabled == enabled,
    {
        ScrapeTool { enabled }
    }

    /// The path that ingesting `uri` reads, or why it is refused.
    pub fn ingest_target(&self, uri: &str) -> (r: Result<String, String>)
        ensures
            match r {
                Ok(p) => ingest_target_of(self.enabled, uri@) == Ok::<Seq<char>, Seq<char>>(p@),
                Err(m) => ingest_target_of(self.enabled, uri@) == Err::<Seq<char>, Seq<char>>(m@),
            },
    {
        proof {
            reveal_strlit("scrape disabled by policy");
            reveal_strlit("file://");
            reveal_strlit("only local file:// ingestion is permitted in local-only scrape mode");
        }
        if !self.enabled {
            return Err(String::from_str("scrape disabled by policy"));
        }
        let cs = text::chars_of(uri);
        let scheme = text::chars_of("file://");
        let n = cs.len();
        assert(cs@.subrange(0, n as int) =~= cs@);
        if text::range_starts_with(cs.as_slice(), 0, n, scheme.as_slice()) {
            let a = text::strip_start_seq_index(cs.as_slice(), scheme.as_slice());
            assert(cs@.subrange(a as int, n as int) =~= cs@.skip(a as int));
            return Ok(text::string_of_range(uri, cs.as_slice(), a, n));
        }
        Err(String::from_str("only local file:// ingestion is permitted in local-only scrape mode"))
    }
}


/// With scraping off nothing is ingested, and with it on only `file://`
/// URIs are.
pub proof fn lemma_ingest_policy(enabled: bool, uri: Seq<char>)
    ensures
        !enabled ==> ingest_target_of(enabled, uri) == Err::<Seq<char>, Seq<char>>(scrape_disabled_message()),
        ingest_target_of(enabled, uri) is Ok ==> enabled && text::starts_with(uri, "file://"@),
{
}


/// An ingestion reads the path that follows the `file://` scheme: the URI
/// is one or more copies of `file://` followed by the path, and the path
/// does not itself start with `file://`.
pub proof fn lemma_ingest_reads_the_path(enabled: bool, uri: Seq<char>)
    ensures
        ingest_target_of(enabled, uri) matches Ok(path) ==> {
            &&& enabled
            &&& path.len() + 7 <= uri.len()
            &&& uri.skip(uri.len() - path.len()) == path
            &&& uri.take(7) == "file://"@
            &&& !text::starts_with(path, "file://"@)
        },
{
    reveal_strlit("file://");
    if let Ok(path) = ingest_target_of(enabled, uri) {
        text::lemma_strip_start_seq(uri, "file://"@);
        let k = choose|k: int| {
            &&& 0 <= k
            &&& #[trigger] (k * 7) <= uri.len()
            &&& text::strip_start_seq(uri, "file://"@) == uri.skip(k * 7)
            &&& forall|j: int| 0 <= j < k ==> text::occurs_at(uri, "file://"@, #[trigger] (j * 7))
        };
        if k == 0 {
            assert(uri.skip(0) =~= uri);
            assert(uri.subrange(0, 7) == "file://"@);
            assert(text::starts_with(path, "file://"@));
        }
        assert(uri.subrange(0, 7) =~= uri.take(7));
        assert(uri.skip(uri.len() - path.len()) =~= path);
    }
}

} // verus!

//! Articles: frontmatter parsing, markdown compilation, and the article
//! item itself.

use vstd::prelude::*;

use crate::error::CompileError;
use crate::frontmatter::spec_split;
use crate::frontmatter::split_frontmatter;
use crate::inject::InjectData;
use crate::inject::ScanErr;
use crate::inject::inject;
use crate::inject::inject_ok;
use crate::inject::quiz_jobs;
use crate::inject::spec_inject;
use crate::inject::spec_scan;
use crate::registry::Registry;
use crate::registry::RegistryEntry;
use crate::state::ArticleConfig;
use crate::state::ParseState;
use crate::quiz::quiz_matches;
use crate::state::Quiz;
use crate::state::quiz_like;
use crate::tokens::html_of;
use crate::tokens::md_event_pairs;
use crate::tokens::md_events;
use crate::tokens::render_html;
use crate::tokens::tokenize;
use crate::tomlval::read_keys;
use crate::tomlval::read_str_field;
use crate::tomlval::toml_keys;
use crate::tomlval::toml_parses;
use crate::tomlval::toml_str_field;

verus! {

/// The frontmatter header of an article: its title, and nothing else.
#[derive(Debug, Clone)]
pub struct RawArticle {
    /// The article's title.
    pub title: String,
}

/// One compiled article: its title, its rendered body, and the side data
/// its annotations produced.
#[derive(Debug)]
pub struct Article {
    /// The article's title, from its frontmatter header.
    pub title: String,
    /// The rendered HTML body.
    pub body: String,
    /// The side data the annotation injector collected.
    pub inject_data: InjectData,
}

impl Article {
    /// Assembles an article from its parsed header, rendered body and
    /// collected side data.
    pub fn from_raw(raw: RawArticle, body: String, inject_data: InjectData) -> (r: Self)
        ensures
            r.title == raw.title,
            r.body == body,
            r.inject_data == inject_data,
    {
        Self { title: raw.title, body, inject_data }
    }
}

/// An acceptable article header: well-formed TOML, exactly one top-level
/// key, and a string bound to `title`.
pub open spec fn article_header_ok(doc: Seq<char>) -> bool {
    &&& toml_parses(doc)
    &&& toml_keys(doc).len() == 1
    &&& toml_str_field(doc, "title"@) is Some
}

/// Parses a frontmatter header block as an article header: a table with
/// exactly the one key `title`, bound to a string. Unknown keys are
/// rejected. Succeeds exactly on `article_header_ok` headers, and the
/// title is exactly the header's `title` field.
pub fn parse_raw_article(header: &str) -> (r: Result<RawArticle, CompileError>)
    ensures
        r is Ok <==> article_header_ok(header@),
        r matches Ok(a) ==> toml_str_field(header@, "title"@) == Some(a.title@),
        r is Err ==> r->Err_0 is ConfigDeserializationError,
{
    let keys = match read_keys(header) {
        Some(k) => k,
        None => {
            return Err(
                CompileError::ConfigDeserializationError(
                    String::from_str("frontmatter header is not well-formed TOML"),
                ),
            );
        },
    };
    proof {
        assert(toml_keys(header@).len() == keys@.len());
    }
    if keys.len() != 1 {
        return Err(
            CompileError::ConfigDeserializationError(
                String::from_str("frontmatter header must hold exactly the `title` field"),
            ),
        );
    }
    let title = match read_str_field(header, "title").1 {
        Some(s) => s,
        None => {
            return Err(
                CompileError::ConfigDeserializationError(
                    String::from_str("frontmatter header needs a string `title` field"),
                ),
            );
        },
    };
    Ok(RawArticle { title })
}

/// Splits a content file and parses its header as an article header,
/// yielding the header and the body text. Succeeds exactly when the split
/// succeeds and the header is acceptable; the split failure and the
/// header failure keep their own error kinds.
pub fn parse_frontmatter(contents: &str) -> (r: Result<(RawArticle, String), CompileError>)
    ensures
        r is Ok <==> (spec_split(contents@) matches Some(hb) && article_header_ok(hb.0)),
        spec_split(contents@) is None ==> r is Err && r->Err_0 is FrontmatterFormatError,
        (spec_split(contents@) matches Some(hb) && !article_header_ok(hb.0)) ==> r is Err
            && r->Err_0 is ConfigDeserializationError,
        r matches Ok(p) ==> (spec_split(contents@) matches Some(hb) && toml_str_field(
            hb.0,
            "title"@,
        ) == Some(p.0.title@) && p.1@ == hb.1),
{
    let (header, body) = match split_frontmatter(contents) {
        Ok(p) => p,
        Err(e) => {
            return Err(e);
        },
    };
    let raw = match parse_raw_article(header.as_str()) {
        Ok(raw) => raw,
        Err(e) => {
            return Err(e);
        },
    };
    Ok((raw, body))
}

/// The quiz map after recording every quiz an article produced, in order,
/// under the article's id.
pub open spec fn quizzes_plus(
    m: Map<(Seq<char>, Seq<char>), Quiz>,
    aid: Seq<char>,
    entries: Seq<(String, Quiz)>,
) -> Map<(Seq<char>, Seq<char>), Quiz>
    decreases entries.len(),
{
    if entries.len() == 0 {
        m
    } else {
        quizzes_plus(m, aid, entries.drop_last()).insert(
            (aid, entries.last().0@),
            entries.last().1,
        )
    }
}

/// The collected side data holds exactly the given quiz work: entry `j`
/// is keyed by job `j`'s data string and holds the quiz its block text
/// describes.
pub open spec fn quizzes_pinned(
    qs: Seq<(String, Quiz)>,
    jobs: Seq<(Seq<char>, Seq<char>)>,
) -> bool {
    &&& qs.len() == jobs.len()
    &&& (forall|j: int|
        0 <= j < jobs.len() ==> ((#[trigger] qs[j]).0@ == jobs[j].0 && quiz_matches(
            jobs[j].1,
            qs[j].1,
        )))
}

/// Everything a content file must satisfy for compilation to succeed: it
/// splits, its header is an acceptable article header, and its body's
/// token stream injects cleanly.
pub open spec fn compile_ok(contents: Seq<char>, reg: Seq<RegistryEntry>) -> bool {
    &&& spec_split(contents) is Some
    &&& article_header_ok(spec_split(contents)->Some_0.0)
    &&& inject_ok(md_events(spec_split(contents)->Some_0.1), reg)
}

/// Recording quizzes only adds keys: what the map held, it still holds.
pub proof fn lemma_quizzes_plus_monotone(
    m: Map<(Seq<char>, Seq<char>), Quiz>,
    aid: Seq<char>,
    entries: Seq<(String, Quiz)>,
    k: (Seq<char>, Seq<char>),
)
    requires
        m.contains_key(k),
    ensures
        quizzes_plus(m, aid, entries).contains_key(k),
    decreases entries.len(),
{
    if entries.len() > 0 {
        lemma_quizzes_plus_monotone(m, aid, entries.drop_last(), k);
    }
}

/// Compiles one article: splits its frontmatter, tokenizes and injects its
/// body, renders the result, and records the article and every quiz its
/// annotations produced into the index — all of it, or, on any error,
/// nothing. Succeeds exactly on `compile_ok` inputs; the title is the
/// header's `title` field, the body is the rendered HTML of the injected
/// stream, and the side data holds exactly the quizzes the annotations
/// define.
#[verifier::loop_isolation(false)]
pub fn compile_article(
    id: &str,
    contents: &str,
    out_path: String,
    reg: &Registry,
    state: &mut ParseState,
) -> (r: Result<Article, CompileError>)
    requires
        old(state).wf(),
    ensures
        final(state).wf(),
        r is Err ==> *final(state) == *old(state),
        forall|k: (Seq<char>, Seq<char>)|
            old(state).quizzes_map().contains_key(k) ==> final(state).quizzes_map().contains_key(
                k,
            ),
        r is Ok <==> compile_ok(contents@, reg.entries@),
        spec_split(contents@) is None ==> r is Err && r->Err_0 is FrontmatterFormatError,
        (spec_split(contents@) matches Some(hb) && !article_header_ok(hb.0)) ==> r is Err
            && r->Err_0 is ConfigDeserializationError,
        (spec_split(contents@) matches Some(hb) && article_header_ok(hb.0)) ==> (match spec_scan(
            md_events(spec_split(contents@)->Some_0.1),
            reg.entries@,
            0,
        ) {
            Ok(_) => r is Err ==> r->Err_0 is ConfigDeserializationError,
            Err(ScanErr::InvalidSyntax) => r is Err && r->Err_0 is InvalidAnnotationSyntax,
            Err(ScanErr::UnknownTag(nm)) => r is Err && r->Err_0 is UnknownAnnotationTag && (r->Err_0->UnknownAnnotationTag_0)@
                == nm,
            Err(ScanErr::BlockMismatch { .. }) => r is Err
                && r->Err_0 is AnnotationBlockMismatch,
            Err(ScanErr::Truncated) => r is Err && r->Err_0 is AnnotationBlockMismatch,
        }),
        r matches Ok(a) ==> (spec_split(contents@) matches Some(hb) && {
            let cs = spec_scan(md_events(hb.1), reg.entries@, 0)->Ok_0;
            &&& toml_str_field(hb.0, "title"@) == Some(a.title@)
            &&& a.body@ == html_of(spec_inject(md_event_pairs(hb.1), reg.entries@, 0))
            &&& quizzes_pinned(a.inject_data.quizzes@, quiz_jobs(cs))
        }),
        r is Ok ==> {
            &&& exists|qs: Seq<(String, Quiz)>|
                {
                    &&& qs.len() == r->Ok_0.inject_data.quizzes@.len()
                    &&& (forall|k: int|
                        0 <= k < qs.len() ==> (#[trigger] qs[k]).0@
                            == r->Ok_0.inject_data.quizzes@[k].0@ && quiz_like(
                            qs[k].1,
                            r->Ok_0.inject_data.quizzes@[k].1,
                        ))
                    &&& final(state).quizzes_map() == quizzes_plus(
                        old(state).quizzes_map(),
                        id@,
                        qs,
                    )
                }
            &&& final(state).articles_map() == old(state).articles_map().insert(id@, out_path)
            &&& exists|cfg: ArticleConfig|
                cfg.id@ == id@ && cfg.title == r->Ok_0.title && final(state).configs_map() == old(state).configs_map().insert(id@, cfg)
            &&& final(state).courses_map() == old(state).courses_map()
        },
{
    let (raw, body) = match parse_frontmatter(contents) {
        Ok(p) => p,
        Err(e) => {
            return Err(e);
        },
    };
    let toks = tokenize(body.as_str());
    let mut data = InjectData::new();
    let injected = match inject(toks, reg, &mut data) {
        Ok(t) => t,
        Err(e) => {
            return Err(e);
        },
    };
    let html = render_html(injected);
    proof {
        let cs = spec_scan(md_events(spec_split(contents@)->Some_0.1), reg.entries@, 0)->Ok_0;
        assert forall|j: int| 0 <= j < quiz_jobs(cs).len() implies ((
        #[trigger] data.quizzes@[j]).0@ == quiz_jobs(cs)[j].0 && quiz_matches(
            quiz_jobs(cs)[j].1,
            data.quizzes@[j].1,
        )) by {
            assert(data.quizzes@[j] == data.quizzes@[0 + j]);
        }
        assert(quizzes_pinned(data.quizzes@, quiz_jobs(cs)));
    }
    // Record the quizzes this article produced, as one set under its id.
    // The index receives copies; the article keeps what the injector made.
    let n = data.quizzes.len();
    let mut i: usize = 0;
    let ghost mut inserted: Seq<(String, Quiz)> = Seq::empty();
    while i < n
        invariant
            i <= n,
            n == data.quizzes@.len(),
            state.wf(),
            inserted.len() == i,
            forall|k: int|
                0 <= k < i ==> (#[trigger] inserted[k]).0@ == data.quizzes@[k].0@ && quiz_like(
                    inserted[k].1,
                    data.quizzes@[k].1,
                ),
            state.quizzes_map() == quizzes_plus(old(state).quizzes_map(), id@, inserted),
            state.articles_map() == old(state).articles_map(),
            state.configs_map() == old(state).configs_map(),
            state.courses_map() == old(state).courses_map(),
        decreases n - i,
    {
        let qid = data.quizzes[i].0.clone();
        let quiz = data.quizzes[i].1.clone();
        let ghost pair = (qid, quiz);
        proof {
            assert(inserted.push(pair).drop_last() =~= inserted);
        }
        state.insert_quiz(id, qid.as_str(), quiz);
        proof {
            inserted = inserted.push(pair);
        }
        i = i + 1;
    }
    proof {
        assert forall|k: (Seq<char>, Seq<char>)|
            old(state).quizzes_map().contains_key(k) implies state.quizzes_map().contains_key(
            k,
        ) by {
            crate::article::lemma_quizzes_plus_monotone(
                old(state).quizzes_map(),
                id@,
                inserted,
                k,
            );
        }
    }
    let config = ArticleConfig { id: id.to_owned(), title: raw.title.clone() };
    state.insert_article(config, out_path);
    let article = Article::from_raw(raw, html, data);
    Ok(article)
}

} // verus!

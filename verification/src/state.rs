//! The content index: the compiled, queryable result of one compilation
//! pass. Rebuilt wholesale per pass; the serving layer only ever reads it.

use vstd::prelude::*;

use crate::error::CompileError;
use crate::kvmap::KeyMap;
use crate::kvmap::PairMap;
use crate::text::is_valid_id;
use crate::text::valid_id;

verus! {

/// One answer of a quiz: its text, the response shown when it is picked,
/// and whether it is correct.
#[derive(Debug)]
pub struct Answer {
    /// The answer text.
    pub text: String,
    /// The response shown when this answer is picked.
    pub response: String,
    /// Whether this answer is correct.
    pub correct: bool,
}

impl Clone for Answer {
    fn clone(&self) -> (r: Self)
        ensures
            r == *self,
    {
        Answer { text: self.text.clone(), response: self.response.clone(), correct: self.correct }
    }
}

/// A quiz definition: a question and its answers.
#[derive(Debug)]
pub struct Quiz {
    /// The question text.
    pub question: String,
    /// The answers, in authored order.
    pub answers: Vec<Answer>,
}

/// Two quizzes with the same question and the same answers.
pub open spec fn quiz_like(a: Quiz, b: Quiz) -> bool {
    a.question == b.question && a.answers@ == b.answers@
}

impl Clone for Quiz {
    fn clone(&self) -> (r: Self)
        ensures
            quiz_like(r, *self),
    {
        let answers = self.answers.clone();
        proof {
            assert forall|i: int| 0 <= i < self.answers@.len() implies answers@[i]
                == self.answers@[i] by {
                assert(cloned::<Answer>(self.answers[i], answers[i]));
            }
            assert(answers@ =~= self.answers@);
        }
        Quiz { question: self.question.clone(), answers }
    }
}

/// The configuration of one article, from its frontmatter header.
#[derive(Debug, Clone)]
pub struct ArticleConfig {
    /// The article's hierarchical id.
    pub id: String,
    /// The article's title.
    pub title: String,
}

/// One child of a course: its id and what kind of item it resolved to.
#[derive(Debug, Clone)]
pub struct CourseChild {
    /// The child's hierarchical id.
    pub id: String,
    /// A label for the child's kind: `article`, `exercise` or `course`.
    pub kind: String,
}

/// The structure of one course: its title and its resolved children.
#[derive(Debug, Clone)]
pub struct Course {
    /// The course's title (its directory name).
    pub title: String,
    /// The resolved children, in directory order.
    pub children: Vec<CourseChild>,
}

/// Stores the result of one compilation pass: quizzes keyed by article and
/// quiz id, rendered-body locations and configurations keyed by article id,
/// and course structures keyed by course id.
#[derive(Debug)]
pub struct ParseState {
    quizzes: PairMap<Quiz>,
    articles: KeyMap<String>,
    article_configs: KeyMap<ArticleConfig>,
    courses: KeyMap<Course>,
}

impl ParseState {
    /// The maps' internal invariants hold.
    pub closed spec fn wf(&self) -> bool {
        &&& self.quizzes.wf()
        &&& self.articles.wf()
        &&& self.article_configs.wf()
        &&& self.courses.wf()
    }

    /// The quizzes, keyed by `(article id, quiz id)`.
    pub closed spec fn quizzes_map(&self) -> Map<(Seq<char>, Seq<char>), Quiz> {
        self.quizzes.as_map()
    }

    /// The rendered-body locations, keyed by article id.
    pub closed spec fn articles_map(&self) -> Map<Seq<char>, String> {
        self.articles.as_map()
    }

    /// The article configurations, keyed by article id.
    pub closed spec fn configs_map(&self) -> Map<Seq<char>, ArticleConfig> {
        self.article_configs.as_map()
    }

    /// The course structures, keyed by course id.
    pub closed spec fn courses_map(&self) -> Map<Seq<char>, Course> {
        self.courses.as_map()
    }

    /// A fresh, empty index.
    pub fn new() -> (r: ParseState)
        ensures
            r.wf(),
            r.quizzes_map() == Map::<(Seq<char>, Seq<char>), Quiz>::empty(),
            r.articles_map() == Map::<Seq<char>, String>::empty(),
            r.configs_map() == Map::<Seq<char>, ArticleConfig>::empty(),
            r.courses_map() == Map::<Seq<char>, Course>::empty(),
    {
        ParseState {
            quizzes: PairMap::new(),
            articles: KeyMap::new(),
            article_configs: KeyMap::new(),
            courses: KeyMap::new(),
        }
    }

    /// Get a quiz by its article id and quiz id.
    pub fn get_quiz(&self, article_id: &str, quiz_id: &str) -> (r: Option<&Quiz>)
        requires
            self.wf(),
        ensures
            match r {
                Some(q) => self.quizzes_map().contains_key((article_id@, quiz_id@)) && *q
                    == self.quizzes_map()[(article_id@, quiz_id@)],
                None => !self.quizzes_map().contains_key((article_id@, quiz_id@)),
            },
    {
        self.quizzes.get(article_id, quiz_id)
    }

    /// Insert a quiz under `(article id, quiz id)`, returning the quiz it
    /// replaced, if any.
    pub fn insert_quiz(&mut self, article: &str, id: &str, quiz: Quiz) -> (r: Option<Quiz>)
        requires
            old(self).wf(),
        ensures
            final(self).wf(),
            final(self).quizzes_map() == old(self).quizzes_map().insert(
                (article@, id@),
                quiz,
            ),
            final(self).articles_map() == old(self).articles_map(),
            final(self).configs_map() == old(self).configs_map(),
            final(self).courses_map() == old(self).courses_map(),
            match r {
                Some(prev) => old(self).quizzes_map().contains_key((article@, id@)) && prev == old(
                    self,
                ).quizzes_map()[(article@, id@)],
                None => !old(self).quizzes_map().contains_key((article@, id@)),
            },
    {
        self.quizzes.insert(article.to_owned(), id.to_owned(), quiz)
    }

    /// Get an article's configuration by its id.
    pub fn get_article_config(&self, article_id: &str) -> (r: Option<&ArticleConfig>)
        requires
            self.wf(),
        ensures
            match r {
                Some(c) => self.configs_map().contains_key(article_id@) && *c
                    == self.configs_map()[article_id@],
                None => !self.configs_map().contains_key(article_id@),
            },
    {
        self.article_configs.get(article_id)
    }

    /// Whether an article with this id was compiled.
    pub fn has_id(&self, article_id: &str) -> (r: bool)
        requires
            self.wf(),
        ensures
            r == self.configs_map().contains_key(article_id@),
    {
        self.article_configs.contains(article_id)
    }

    /// Record an article: its configuration and its rendered-body location
    /// are inserted together, under the same id, so no reader ever sees one
    /// without the other.
    pub fn insert_article(&mut self, config: ArticleConfig, path: String)
        requires
            old(self).wf(),
        ensures
            final(self).wf(),
            final(self).articles_map() == old(self).articles_map().insert(config.id@, path),
            final(self).configs_map() == old(self).configs_map().insert(config.id@, config),
            final(self).quizzes_map() == old(self).quizzes_map(),
            final(self).courses_map() == old(self).courses_map(),
    {
        let id = config.id.clone();
        let id2 = config.id.clone();
        self.articles.insert(id, path);
        self.article_configs.insert(id2, config);
    }

    /// Record a course structure under its id.
    pub fn insert_course(&mut self, id: String, course: Course)
        requires
            old(self).wf(),
        ensures
            final(self).wf(),
            final(self).courses_map() == old(self).courses_map().insert(id@, course),
            final(self).quizzes_map() == old(self).quizzes_map(),
            final(self).articles_map() == old(self).articles_map(),
            final(self).configs_map() == old(self).configs_map(),
    {
        self.courses.insert(id, course);
    }

    /// The rendered-body location of an article, by id.
    ///
    /// The id is validated before anything else: an id with a character
    /// outside `[A-Za-z0-9_-]` (so in particular `.`, `/` and `..`) is
    /// rejected with `IdValidationError`, and no location ever leaves this
    /// index for it — nothing can be read outside the content root. An id
    /// that validates but was never compiled yields `IoError`.
    pub fn article_path(&self, article_id: &str) -> (r: Result<String, CompileError>)
        requires
            self.wf(),
        ensures
            !is_valid_id(article_id@) ==> r is Err && r->Err_0 is IdValidationError,
            is_valid_id(article_id@) && self.articles_map().contains_key(article_id@) ==> r is Ok
                && r->Ok_0@ == self.articles_map()[article_id@]@,
            is_valid_id(article_id@) && !self.articles_map().contains_key(article_id@) ==> r is Err
                && r->Err_0 is IoError,
    {
        if !valid_id(article_id) {
            return Err(CompileError::IdValidationError(article_id.to_owned()));
        }
        match self.articles.get(article_id) {
            Some(p) => Ok(p.clone()),
            None => Err(CompileError::IoError(article_id.to_owned())),
        }
    }
}

} // verus!

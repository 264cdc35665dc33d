//! Exercises: the directory schema, the configuration, and the linker that
//! binds per-language source files to the declared function signatures.

use vstd::prelude::*;

use crate::error::CompileError;
use crate::inject::InjectData;
use crate::inject::inject;
use crate::inject::inject_ok;
use crate::inject::spec_inject;
use crate::registry::Registry;
use crate::registry::RegistryEntry;
use crate::state::ParseState;
use crate::text::str_eq;
use crate::text::strip_prefix_str;
use crate::tokens::html_of;
use crate::tokens::md_event_pairs;
use crate::tokens::md_events;
use crate::tokens::render_html;
use crate::tokens::tokenize;
use crate::tomlval::read_keys;
use crate::tomlval::read_str_field;
use crate::tomlval::read_sub_arr_len;
use crate::tomlval::read_sub_arr_str;
use crate::tomlval::read_sub_str_field;
use crate::tomlval::toml_has_field;
use crate::tomlval::toml_keys;
use crate::tomlval::toml_parses;
use crate::tomlval::toml_str_field;
use crate::tomlval::toml_sub_arr_len;
use crate::tomlval::toml_sub_arr_str;
use crate::tomlval::toml_sub_str;

verus! {

/// A language the runner supports, recognized by its source extension.
#[derive(Debug, Clone, Copy, PartialEq, Eq, Structural)]
pub enum Language {
    /// Python, extension `py`.
    Python,
    /// JavaScript, extension `js`.
    JavaScript,
}

/// A known source extension.
pub open spec fn ext_ok(e: Seq<char>) -> bool {
    e == "py"@ || e == "js"@
}

/// The language a known extension names.
pub open spec fn lang_of(e: Seq<char>) -> Language {
    if e == "py"@ {
        Language::Python
    } else {
        Language::JavaScript
    }
}

impl Language {
    /// The language a source extension names: `py` or `js`; anything else
    /// is an `UnsupportedLanguage` error naming the extension.
    pub fn from_ext(ext: &str) -> (r: Result<Language, CompileError>)
        ensures
            r is Ok <==> ext_ok(ext@),
            r matches Ok(l) ==> l == lang_of(ext@),
            r is Err ==> r->Err_0 is UnsupportedLanguage && r->Err_0->UnsupportedLanguage_0@
                == ext@,
    {
        if str_eq(ext, "py") {
            Ok(Language::Python)
        } else if str_eq(ext, "js") {
            Ok(Language::JavaScript)
        } else {
            Err(CompileError::UnsupportedLanguage(ext.to_owned()))
        }
    }

    /// The extension this language is recognized by.
    pub fn ext(&self) -> (r: &'static str)
        ensures
            *self is Python ==> r@ == "py"@,
            *self is JavaScript ==> r@ == "js"@,
    {
        match self {
            Language::Python => "py",
            Language::JavaScript => "js",
        }
    }
}

/// A value type a signature can declare for an input or output.
#[derive(Debug, Clone, Copy, PartialEq, Eq, Structural)]
pub enum VariableType {
    /// An integer.
    Int,
    /// A string.
    Str,
    /// A boolean.
    Bool,
}

/// A known type name: `int`, `string` or `bool`.
pub open spec fn type_name_ok(t: Seq<char>) -> bool {
    t == "int"@ || t == "string"@ || t == "bool"@
}

/// The type a known type name declares.
pub open spec fn var_ty(t: Seq<char>) -> VariableType {
    if t == "int"@ {
        VariableType::Int
    } else if t == "string"@ {
        VariableType::Str
    } else {
        VariableType::Bool
    }
}

/// The type a name in a signature declares: `int`, `string` or `bool`;
/// anything else is an `InvalidSignature` error.
pub fn parse_variable_type(s: &str) -> (r: Result<VariableType, CompileError>)
    ensures
        r is Ok <==> type_name_ok(s@),
        r matches Ok(t) ==> t == var_ty(s@),
        r is Err ==> r->Err_0 is InvalidSignature,
{
    if str_eq(s, "int") {
        Ok(VariableType::Int)
    } else if str_eq(s, "string") {
        Ok(VariableType::Str)
    } else if str_eq(s, "bool") {
        Ok(VariableType::Bool)
    } else {
        Err(CompileError::InvalidSignature(s.to_owned()))
    }
}

/// One declared function signature: its input types and its output type.
#[derive(Debug, Clone)]
pub struct FunctionConfig {
    /// The input types, in order.
    pub inputs: Vec<VariableType>,
    /// The output type.
    pub output: VariableType,
}

/// The configuration of one exercise: its title, its rendered
/// instructions, and the function signatures it declares.
#[derive(Debug)]
pub struct ExerciseConfig {
    /// The exercise's title.
    pub title: String,
    /// The rendered instructions; filled from `instructions.md`.
    pub instructions: String,
    /// The declared function signatures, keyed by function name.
    pub functions: Vec<(String, FunctionConfig)>,
}

/// One exercise: its configuration and its per-language starter sources.
#[derive(Debug)]
pub struct Exercise {
    /// The exercise's configuration.
    pub config: ExerciseConfig,
    /// The starter source of each supported language.
    pub code: Vec<(Language, String)>,
}

/// The flat form an exercise is serialized in.
#[derive(Debug)]
pub struct ExcerciseSerialize {
    /// The exercise's title.
    pub title: String,
    /// The rendered instructions.
    pub instructions: String,
    /// The starter source of each supported language.
    pub code: Vec<(Language, String)>,
}

impl From<Exercise> for ExcerciseSerialize {
    fn from(e: Exercise) -> (r: Self) {
        ExcerciseSerialize {
            title: e.config.title,
            instructions: e.config.instructions,
            code: e.code,
        }
    }
}

impl vstd::std_specs::convert::FromSpecImpl<Exercise> for ExcerciseSerialize {
    open spec fn obeys_from_spec() -> bool {
        true
    }

    open spec fn from_spec(e: Exercise) -> Self {
        ExcerciseSerialize {
            title: e.config.title,
            instructions: e.config.instructions,
            code: e.code,
        }
    }
}

/// An acceptable function signature under `key`: an `inputs` list of known
/// type names and an `output` known type name.
pub open spec fn sig_ok(doc: Seq<char>, key: Seq<char>) -> bool {
    &&& (toml_sub_arr_len(doc, key, "inputs"@) matches Some(n) && (forall|i: int|
        0 <= i < n ==> ((#[trigger] toml_sub_arr_str(doc, key, "inputs"@, i)) matches Some(t)
            && type_name_ok(t))))
    &&& (toml_sub_str(doc, key, "output"@) matches Some(t2) && type_name_ok(t2))
}

/// Whether `fc` is exactly the signature declared under `key`.
pub open spec fn sig_matches(doc: Seq<char>, key: Seq<char>, fc: FunctionConfig) -> bool {
    &&& toml_sub_arr_len(doc, key, "inputs"@) == Some(fc.inputs@.len() as int)
    &&& forall|i: int|
        0 <= i < fc.inputs@.len() ==> #[trigger] fc.inputs@[i] == var_ty(
            toml_sub_arr_str(doc, key, "inputs"@, i)->Some_0,
        )
    &&& fc.output == var_ty(toml_sub_str(doc, key, "output"@)->Some_0)
}

/// Parses one function signature table: an `inputs` list of type names and
/// an `output` type name. Succeeds exactly on acceptable signatures.
fn parse_function_config(s: &str, key: &str) -> (r: Result<FunctionConfig, CompileError>)
    ensures
        r is Ok <==> sig_ok(s@, key@),
        r matches Ok(fc) ==> sig_matches(s@, key@, fc),
        r is Err ==> r->Err_0 is InvalidSignature,
{
    let n = match read_sub_arr_len(s, key, "inputs") {
        Some(n) => n,
        None => {
            return Err(
                CompileError::InvalidSignature(
                    String::from_str("signature needs an `inputs` list"),
                ),
            );
        },
    };
    let mut inputs: Vec<VariableType> = Vec::new();
    let mut i: usize = 0;
    while i < n
        invariant
            i <= n,
            toml_sub_arr_len(s@, key@, "inputs"@) == Some(n as int),
            inputs@.len() == i,
            forall|k: int|
                0 <= k < i ==> ((#[trigger] toml_sub_arr_str(s@, key@, "inputs"@, k)) matches Some(
                    t,
                ) && type_name_ok(t) && inputs@[k] == var_ty(t)),
        decreases n - i,
    {
        let name = match read_sub_arr_str(s, key, "inputs", i) {
            Some(t) => t,
            None => {
                return Err(
                    CompileError::InvalidSignature(
                        String::from_str("signature input types must be strings"),
                    ),
                );
            },
        };
        let t = match parse_variable_type(name.as_str()) {
            Ok(t) => t,
            Err(e) => {
                return Err(e);
            },
        };
        inputs.push(t);
        i = i + 1;
    }
    let output_name = match read_sub_str_field(s, key, "output") {
        Some(t) => t,
        None => {
            return Err(
                CompileError::InvalidSignature(
                    String::from_str("signature needs an `output` type"),
                ),
            );
        },
    };
    let output = match parse_variable_type(output_name.as_str()) {
        Ok(t) => t,
        Err(e) => {
            return Err(e);
        },
    };
    Ok(FunctionConfig { inputs, output })
}

/// A reserved top-level key of an exercise configuration.
pub open spec fn reserved_key(k: Seq<char>) -> bool {
    k == "title"@ || k == "instructions"@
}

/// The non-reserved keys, in table order: each declares a function.
pub open spec fn sig_keys(ks: Seq<Seq<char>>) -> Seq<Seq<char>>
    decreases ks.len(),
{
    if ks.len() == 0 {
        Seq::empty()
    } else {
        (if reserved_key(ks[0]) {
            Seq::empty()
        } else {
            seq![ks[0]]
        }) + sig_keys(ks.drop_first())
    }
}

/// An acceptable exercise configuration: well-formed TOML, a string
/// `title`, `instructions` a string when present, and an acceptable
/// signature under every other key.
pub open spec fn exercise_config_ok(doc: Seq<char>) -> bool {
    &&& toml_parses(doc)
    &&& toml_str_field(doc, "title"@) is Some
    &&& (toml_has_field(doc, "instructions"@) ==> toml_str_field(doc, "instructions"@) is Some)
    &&& forall|k: int|
        0 <= k < toml_keys(doc).len() && !reserved_key(#[trigger] toml_keys(doc)[k]) ==> sig_ok(
            doc,
            toml_keys(doc)[k],
        )
}

/// Whether `fns` holds exactly the declared signatures, in table order.
pub open spec fn functions_match(doc: Seq<char>, fns: Seq<(String, FunctionConfig)>) -> bool {
    &&& fns.len() == sig_keys(toml_keys(doc)).len()
    &&& forall|j: int|
        0 <= j < fns.len() ==> ((#[trigger] fns[j]).0@ == sig_keys(toml_keys(doc))[j]
            && sig_matches(doc, fns[j].0@, fns[j].1))
}

/// Parses `config.toml`: a `title`, optional `instructions`, and a
/// signature table under every other key. Succeeds exactly on acceptable
/// configurations; the result's fields are exactly the declared ones.
pub fn parse_exercise_config(text: &str) -> (r: Result<ExerciseConfig, CompileError>)
    ensures
        r is Ok <==> exercise_config_ok(text@),
        r matches Ok(c) ==> {
            &&& toml_str_field(text@, "title"@) == Some(c.title@)
            &&& c.instructions@ == (if toml_has_field(text@, "instructions"@) {
                toml_str_field(text@, "instructions"@)->Some_0
            } else {
                Seq::<char>::empty()
            })
            &&& functions_match(text@, c.functions@)
        },
        r is Err ==> r->Err_0 is ConfigDeserializationError || r->Err_0 is InvalidSignature,
{
    let keys = match read_keys(text) {
        Some(k) => k,
        None => {
            return Err(
                CompileError::ConfigDeserializationError(
                    String::from_str("exercise configuration is not well-formed TOML"),
                ),
            );
        },
    };
    let title = match read_str_field(text, "title").1 {
        Some(s) => s,
        None => {
            return Err(
                CompileError::ConfigDeserializationError(
                    String::from_str("exercise configuration needs a string `title` field"),
                ),
            );
        },
    };
    let (has_instr, instr_val) = read_str_field(text, "instructions");
    let instructions = if has_instr {
        match instr_val {
            Some(s) => s,
            None => {
                return Err(
                    CompileError::ConfigDeserializationError(
                        String::from_str("exercise field `instructions` must be a string"),
                    ),
                );
            },
        }
    } else {
        String::new()
    };
    let ghost kv = toml_keys(text@);
    let mut functions: Vec<(String, FunctionConfig)> = Vec::new();
    let n = keys.len();
    let ghost mut fkeys: Seq<Seq<char>> = Seq::empty();
    proof {
        assert(kv.subrange(0, kv.len() as int) =~= kv);
        assert(fkeys + sig_keys(kv.subrange(0, kv.len() as int)) =~= sig_keys(kv));
    }
    let mut i: usize = 0;
    while i < n
        invariant
            i <= n,
            n == keys@.len(),
            kv == toml_keys(text@),
            keys@.map(|ii: int, k2: String| k2@) == kv,
            sig_keys(kv) == fkeys + sig_keys(kv.subrange(i as int, n as int)),
            fkeys.len() == functions@.len(),
            forall|j: int|
                0 <= j < functions@.len() ==> ((#[trigger] functions@[j]).0@ == fkeys[j]
                    && sig_ok(text@, functions@[j].0@) && sig_matches(
                    text@,
                    functions@[j].0@,
                    functions@[j].1,
                )),
            forall|k: int| 0 <= k < i && !reserved_key(#[trigger] kv[k]) ==> sig_ok(text@, kv[k]),
        decreases n - i,
    {
        let key = &keys[i];
        let ghost suffix = kv.subrange(i as int, n as int);
        proof {
            assert(keys@.map(|ii: int, k2: String| k2@)[i as int] == key@);
            assert(suffix[0] == kv[i as int]);
            assert(suffix.drop_first() =~= kv.subrange(i as int + 1, n as int));
        }
        if !str_eq(key.as_str(), "title") && !str_eq(key.as_str(), "instructions") {
            match parse_function_config(text, key.as_str()) {
                Ok(fc) => {
                    let ghost fns0 = functions@;
                    functions.push((key.clone(), fc));
                    proof {
                        assert(!reserved_key(kv[i as int]));
                        assert(sig_keys(suffix) =~= seq![key@] + sig_keys(
                            kv.subrange(i as int + 1, n as int),
                        ));
                        assert(fkeys + (seq![key@] + sig_keys(
                            kv.subrange(i as int + 1, n as int),
                        )) =~= fkeys.push(key@) + sig_keys(kv.subrange(i as int + 1, n as int)));
                        assert(functions@[fns0.len() as int].0@ == key@);
                        assert forall|j: int| 0 <= j < functions@.len() implies ((
                        #[trigger] functions@[j]).0@ == fkeys.push(key@)[j] && sig_ok(
                            text@,
                            functions@[j].0@,
                        ) && sig_matches(text@, functions@[j].0@, functions@[j].1)) by {
                            if j < fns0.len() {
                                assert(functions@[j] == fns0[j]);
                            }
                        }
                        fkeys = fkeys.push(key@);
                    }
                },
                Err(e) => {
                    return Err(e);
                },
            }
        } else {
            proof {
                assert(reserved_key(kv[i as int]));
                assert(sig_keys(suffix) =~= sig_keys(kv.subrange(i as int + 1, n as int)));
            }
        }
        i = i + 1;
    }
    proof {
        assert(kv.subrange(n as int, n as int).len() == 0);
        assert(sig_keys(kv.subrange(n as int, n as int)) =~= Seq::<Seq<char>>::empty());
        assert(fkeys + Seq::<Seq<char>>::empty() =~= fkeys);
        assert(fkeys == sig_keys(kv));
    }
    let config = ExerciseConfig { title, instructions, functions };
    proof {
        assert forall|j: int| 0 <= j < config.functions@.len() implies ((
        #[trigger] config.functions@[j]).0@ == sig_keys(toml_keys(text@))[j] && sig_matches(
            text@,
            config.functions@[j].0@,
            config.functions@[j].1,
        )) by {
            assert(config.functions@[j] == functions@[j]);
        }
        assert(functions_match(text@, config.functions@));
        assert(exercise_config_ok(text@));
    }
    Ok(config)
}

/// One entry of a resolved content directory: a relative path such as
/// `config.toml` or `src/generator.py`, whether it is a directory, and the
/// file's contents.
#[derive(Debug)]
pub struct DirEntry {
    /// The entry's path, relative to the item directory.
    pub name: String,
    /// Whether the entry is a directory.
    pub is_dir: bool,
    /// The file's contents; empty for a directory.
    pub contents: String,
}

/// The listed contents of one item directory.
#[derive(Debug)]
pub struct DirContents {
    /// The entries, in directory order.
    pub entries: Vec<DirEntry>,
}

/// A file named exactly `name` is among the entries.
pub open spec fn has_file(s: Seq<DirEntry>, name: Seq<char>) -> bool {
    exists|k: int| 0 <= k < s.len() && !s[k].is_dir && s[k].name@ == name
}

/// A directory named exactly `name` is among the entries.
pub open spec fn has_dir(s: Seq<DirEntry>, name: Seq<char>) -> bool {
    exists|k: int| 0 <= k < s.len() && s[k].is_dir && s[k].name@ == name
}

/// A file whose path starts with `p` is among the entries.
pub open spec fn has_file_with_prefix(s: Seq<DirEntry>, p: Seq<char>) -> bool {
    exists|k: int| 0 <= k < s.len() && !s[k].is_dir && p.is_prefix_of(s[k].name@)
}

/// The contents of the first file named exactly `name`, if any.
pub open spec fn first_file(s: Seq<DirEntry>, name: Seq<char>) -> Option<Seq<char>>
    decreases s.len(),
{
    if s.len() == 0 {
        None
    } else if !s[0].is_dir && s[0].name@ == name {
        Some(s[0].contents@)
    } else {
        first_file(s.drop_first(), name)
    }
}

/// Every file among the entries whose path starts with `pfx` has its
/// contents linked in `code`.
pub open spec fn code_covers(
    code: Seq<(Language, String)>,
    entries: Seq<DirEntry>,
    pfx: Seq<char>,
) -> bool {
    forall|k: int|
        0 <= k < entries.len() && !entries[k].is_dir && pfx.is_prefix_of(
            #[trigger] entries[k].name@,
        ) ==> exists|j: int| 0 <= j < code.len() && (#[trigger] code[j]).1@ == entries[k].contents@
}

/// Every starter file's extension names a supported language.
pub open spec fn starters_ok(entries: Seq<DirEntry>, pfx: Seq<char>) -> bool {
    forall|k: int|
        0 <= k < entries.len() && !entries[k].is_dir && pfx.is_prefix_of(
            #[trigger] entries[k].name@,
        ) ==> ext_ok(entries[k].name@.skip(pfx.len() as int))
}

/// The starter files in directory order: each one's extension and its
/// contents.
pub open spec fn starters(entries: Seq<DirEntry>, pfx: Seq<char>) -> Seq<(Seq<char>, Seq<char>)>
    decreases entries.len(),
{
    if entries.len() == 0 {
        Seq::empty()
    } else {
        (if !entries[0].is_dir && pfx.is_prefix_of(entries[0].name@) {
            seq![(entries[0].name@.skip(pfx.len() as int), entries[0].contents@)]
        } else {
            Seq::empty()
        }) + starters(entries.drop_first(), pfx)
    }
}

/// Every starter file stands among the starters, at some position, with
/// its extension and contents.
proof fn lemma_starters_complete(entries: Seq<DirEntry>, pfx: Seq<char>, k: int)
    requires
        0 <= k < entries.len(),
        !entries[k].is_dir,
        pfx.is_prefix_of(entries[k].name@),
    ensures
        exists|j: int|
            0 <= j < starters(entries, pfx).len() && #[trigger] starters(entries, pfx)[j] == (
                entries[k].name@.skip(pfx.len() as int),
                entries[k].contents@,
            ),
    decreases entries.len(),
{
    if k == 0 {
        assert(starters(entries, pfx)[0] == (
            entries[0].name@.skip(pfx.len() as int),
            entries[0].contents@,
        ));
    } else {
        assert(entries.drop_first()[k - 1] == entries[k]);
        lemma_starters_complete(entries.drop_first(), pfx, k - 1);
        let jw = choose|j: int|
            0 <= j < starters(entries.drop_first(), pfx).len() && #[trigger] starters(
                entries.drop_first(),
                pfx,
            )[j] == (entries[k].name@.skip(pfx.len() as int), entries[k].contents@);
        let off = if !entries[0].is_dir && pfx.is_prefix_of(entries[0].name@) {
            1int
        } else {
            0int
        };
        assert(starters(entries, pfx)[off + jw] == starters(entries.drop_first(), pfx)[jw]);
    }
}

/// Whether `code` is exactly the starter files, in order, each under the
/// language its extension names.
pub open spec fn code_matches(
    code: Seq<(Language, String)>,
    entries: Seq<DirEntry>,
    pfx: Seq<char>,
) -> bool {
    &&& code.len() == starters(entries, pfx).len()
    &&& forall|j: int|
        0 <= j < code.len() ==> ((#[trigger] code[j]).0 == lang_of(starters(entries, pfx)[j].0)
            && code[j].1@ == starters(entries, pfx)[j].1)
}

impl DirContents {
    /// The first file named exactly `name`, if any.
    pub fn find_file(&self, name: &str) -> (r: Option<&DirEntry>)
        ensures
            match r {
                Some(e) => !e.is_dir && e.name@ == name@ && has_file(self.entries@, name@)
                    && first_file(self.entries@, name@) == Some(e.contents@),
                None => !has_file(self.entries@, name@) && first_file(self.entries@, name@)
                    is None,
            },
    {
        let n = self.entries.len();
        proof {
            assert(self.entries@.subrange(0, n as int) =~= self.entries@);
        }
        let mut i: usize = 0;
        while i < n
            invariant
                i <= n,
                n == self.entries@.len(),
                forall|k: int|
                    0 <= k < i ==> (self.entries@[k].is_dir || self.entries@[k].name@ != name@),
                first_file(self.entries@, name@) == first_file(
                    self.entries@.subrange(i as int, n as int),
                    name@,
                ),
            decreases n - i,
        {
            proof {
                let suffix = self.entries@.subrange(i as int, n as int);
                assert(suffix[0] == self.entries@[i as int]);
                assert(suffix.drop_first() =~= self.entries@.subrange(i as int + 1, n as int));
            }
            if !self.entries[i].is_dir && str_eq(self.entries[i].name.as_str(), name) {
                return Some(&self.entries[i]);
            }
            i = i + 1;
        }
        proof {
            assert(self.entries@.subrange(n as int, n as int).len() == 0);
        }
        None
    }

    /// Whether a directory named exactly `name` is listed.
    pub fn has_dir_named(&self, name: &str) -> (r: bool)
        ensures
            r == has_dir(self.entries@, name@),
    {
        let n = self.entries.len();
        let mut i: usize = 0;
        while i < n
            invariant
                i <= n,
                n == self.entries@.len(),
                forall|k: int|
                    0 <= k < i ==> !(self.entries@[k].is_dir && self.entries@[k].name@ == name@),
            decreases n - i,
        {
            if self.entries[i].is_dir && str_eq(self.entries[i].name.as_str(), name) {
                return true;
            }
            i = i + 1;
        }
        false
    }

    /// Whether a file whose path starts with `p` is listed.
    pub fn has_code_file(&self, p: &str) -> (r: bool)
        ensures
            r == has_file_with_prefix(self.entries@, p@),
    {
        let n = self.entries.len();
        let mut i: usize = 0;
        while i < n
            invariant
                i <= n,
                n == self.entries@.len(),
                forall|k: int|
                    0 <= k < i ==> (self.entries@[k].is_dir || !p@.is_prefix_of(
                        self.entries@[k].name@,
                    )),
            decreases n - i,
        {
            if !self.entries[i].is_dir {
                match strip_prefix_str(self.entries[i].name.as_str(), p) {
                    Some(_) => {
                        proof {
                            assert(p@.is_prefix_of(self.entries@[i as int].name@)) by {
                                assert(self.entries@[i as int].name@.subrange(0, p@.len() as int)
                                    =~= p@);
                            }
                        }
                        return true;
                    },
                    None => {},
                }
            }
            i = i + 1;
        }
        false
    }
}

/// Everything an acceptable exercise directory must satisfy beyond its
/// schema: a valid configuration, instructions whose markdown compiles,
/// and starter files of supported languages only.
pub open spec fn from_raw_ok(
    entries: Seq<DirEntry>,
    seg: Seq<char>,
    reg: Seq<RegistryEntry>,
) -> bool {
    &&& (first_file(entries, "config.toml"@) matches Some(cfg) && exercise_config_ok(cfg))
    &&& (first_file(entries, "instructions.md"@) matches Some(instr) && inject_ok(
        md_events(instr),
        reg,
    ))
    &&& starters_ok(entries, "src/"@ + seg + "."@)
}

impl Exercise {
    /// Reads an exercise out of its listed directory: parses
    /// `config.toml`, compiles `instructions.md` (quizzes in it are
    /// recorded under the exercise's id), and links the starter source of
    /// every language found under `src/` with the exercise's name.
    ///
    /// Succeeds exactly when the configuration is acceptable, the
    /// instructions compile, and every starter extension names a supported
    /// language; the result is exactly the declared configuration with the
    /// rendered instructions, and exactly the starter files in order, each
    /// under its language.
    pub fn from_raw(
        contents: &DirContents,
        id: &str,
        seg: &str,
        reg: &Registry,
        state: &mut ParseState,
    ) -> (r: Result<Exercise, CompileError>)
        requires
            old(state).wf(),
        ensures
            final(state).wf(),
            final(state).articles_map() == old(state).articles_map(),
            final(state).configs_map() == old(state).configs_map(),
            final(state).courses_map() == old(state).courses_map(),
            forall|k: (Seq<char>, Seq<char>)|
                old(state).quizzes_map().contains_key(k) ==> final(state).quizzes_map().contains_key(k),
            r is Ok <==> from_raw_ok(contents.entries@, seg@, reg.entries@),
            r matches Ok(ex) ==> {
                let cfg = first_file(contents.entries@, "config.toml"@)->Some_0;
                let instr = first_file(contents.entries@, "instructions.md"@)->Some_0;
                &&& toml_str_field(cfg, "title"@) == Some(ex.config.title@)
                &&& ex.config.instructions@ == html_of(
                    spec_inject(md_event_pairs(instr), reg.entries@, 0),
                )
                &&& functions_match(cfg, ex.config.functions@)
                &&& code_matches(ex.code@, contents.entries@, "src/"@ + seg@ + "."@)
                &&& code_covers(ex.code@, contents.entries@, "src/"@ + seg@ + "."@)
            },
    {
        let config_text = match contents.find_file("config.toml") {
            Some(e) => &e.contents,
            None => {
                return Err(CompileError::SchemaViolation(String::from_str("config.toml")));
            },
        };
        let mut config = match parse_exercise_config(config_text.as_str()) {
            Ok(c) => c,
            Err(e) => {
                return Err(e);
            },
        };
        let instructions_text = match contents.find_file("instructions.md") {
            Some(e) => &e.contents,
            None => {
                return Err(CompileError::SchemaViolation(String::from_str("instructions.md")));
            },
        };
        // Compile the instructions as markdown, under the exercise's id.
        let toks = tokenize(instructions_text.as_str());
        let mut data = InjectData::new();
        let injected = match inject(toks, reg, &mut data) {
            Ok(t) => t,
            Err(e) => {
                return Err(e);
            },
        };
        config.instructions = render_html(injected);
        let qn = data.quizzes.len();
        let mut qi: usize = 0;
        while qi < qn
            invariant
                qi <= qn,
                qn == data.quizzes@.len(),
                state.wf(),
                state.articles_map() == old(state).articles_map(),
                state.configs_map() == old(state).configs_map(),
                state.courses_map() == old(state).courses_map(),
                forall|k: (Seq<char>, Seq<char>)|
                    old(state).quizzes_map().contains_key(k) ==> state.quizzes_map().contains_key(
                        k,
                    ),
            decreases qn - qi,
        {
            let qid = data.quizzes[qi].0.clone();
            let quiz = data.quizzes[qi].1.clone();
            state.insert_quiz(id, qid.as_str(), quiz);
            qi = qi + 1;
        }
        // Link the starter source of every language under `src/`.
        let prefix = String::from_str("src/").concat(seg).concat(".");
        proof {
            assert(prefix@ =~= "src/"@ + seg@ + "."@);
        }
        let ghost pfx = "src/"@ + seg@ + "."@;
        let ghost entries = contents.entries@;
        let mut code: Vec<(Language, String)> = Vec::new();
        let n = contents.entries.len();
        proof {
            assert(entries.subrange(0, n as int) =~= entries);
        }
        let ghost mut done: Seq<(Seq<char>, Seq<char>)> = Seq::empty();
        let mut i: usize = 0;
        while i < n
            invariant
                i <= n,
                n == entries.len(),
                entries == contents.entries@,
                state.wf(),
                state.articles_map() == old(state).articles_map(),
                state.configs_map() == old(state).configs_map(),
                state.courses_map() == old(state).courses_map(),
                forall|k: (Seq<char>, Seq<char>)|
                    old(state).quizzes_map().contains_key(k) ==> state.quizzes_map().contains_key(
                        k,
                    ),
                prefix@ == pfx,
                pfx == "src/"@ + seg@ + "."@,
                starters(entries, pfx) == done + starters(entries.subrange(i as int, n as int), pfx),
                code@.len() == done.len(),
                forall|j: int|
                    0 <= j < done.len() ==> (ext_ok((#[trigger] done[j]).0) && code@[j].0
                        == lang_of(done[j].0) && code@[j].1@ == done[j].1),
                forall|k: int|
                    0 <= k < i && !entries[k].is_dir && pfx.is_prefix_of(
                        #[trigger] entries[k].name@,
                    ) ==> ext_ok(entries[k].name@.skip(pfx.len() as int)),
            decreases n - i,
        {
            let entry = &contents.entries[i];
            let ghost suffix = entries.subrange(i as int, n as int);
            proof {
                assert(suffix[0] == entries[i as int]);
                assert(suffix.drop_first() =~= entries.subrange(i as int + 1, n as int));
            }
            if !entry.is_dir {
                match strip_prefix_str(entry.name.as_str(), prefix.as_str()) {
                    Some(ext) => {
                        proof {
                            assert(entry.name@ == pfx + ext@);
                            assert(pfx.is_prefix_of(entry.name@)) by {
                                assert(entry.name@.subrange(0, pfx.len() as int) =~= pfx);
                            }
                            assert(entry.name@.skip(pfx.len() as int) =~= ext@);
                        }
                        let lang = match Language::from_ext(ext.as_str()) {
                            Ok(l) => l,
                            Err(e) => {
                                proof {
                                    assert(!ext_ok(entries[i as int].name@.skip(
                                        pfx.len() as int,
                                    )));
                                    assert(!starters_ok(entries, pfx));
                                    assert(!starters_ok(entries, "src/"@ + seg@ + "."@));
                                    assert(!from_raw_ok(contents.entries@, seg@, reg.entries@));
                                }
                                return Err(e);
                            },
                        };
                        code.push((lang, entry.contents.clone()));
                        proof {
                            assert(starters(suffix, pfx) =~= seq![(ext@, entry.contents@)]
                                + starters(entries.subrange(i as int + 1, n as int), pfx));
                            assert(done + (seq![(ext@, entry.contents@)] + starters(
                                entries.subrange(i as int + 1, n as int),
                                pfx,
                            )) =~= done.push((ext@, entry.contents@)) + starters(
                                entries.subrange(i as int + 1, n as int),
                                pfx,
                            ));
                            done = done.push((ext@, entry.contents@));
                        }
                    },
                    None => {
                        proof {
                            assert(!pfx.is_prefix_of(entry.name@));
                            assert(starters(suffix, pfx) =~= Seq::<(Seq<char>, Seq<char>)>::empty()
                                + starters(entries.subrange(i as int + 1, n as int), pfx));
                            assert(Seq::<(Seq<char>, Seq<char>)>::empty() + starters(
                                entries.subrange(i as int + 1, n as int),
                                pfx,
                            ) =~= starters(entries.subrange(i as int + 1, n as int), pfx));
                        }
                    },
                }
            } else {
                proof {
                    assert(starters(suffix, pfx) =~= Seq::<(Seq<char>, Seq<char>)>::empty()
                        + starters(entries.subrange(i as int + 1, n as int), pfx));
                    assert(Seq::<(Seq<char>, Seq<char>)>::empty() + starters(
                        entries.subrange(i as int + 1, n as int),
                        pfx,
                    ) =~= starters(entries.subrange(i as int + 1, n as int), pfx));
                }
            }
            i = i + 1;
        }
        proof {
            assert(starters(entries.subrange(n as int, n as int), pfx) =~= Seq::<
                (Seq<char>, Seq<char>),
            >::empty());
            assert(done + Seq::<(Seq<char>, Seq<char>)>::empty() =~= done);
            assert(starters(entries, pfx) == done);
            // Every starter file is linked: its contents stand at its
            // position among the starters.
            assert forall|k: int|
                0 <= k < entries.len() && !entries[k].is_dir && pfx.is_prefix_of(
                    #[trigger] entries[k].name@,
                ) implies exists|j: int|
                0 <= j < code@.len() && (#[trigger] code@[j]).1@ == entries[k].contents@ by {
                lemma_starters_complete(entries, pfx, k);
                let jw = choose|j: int|
                    0 <= j < starters(entries, pfx).len() && #[trigger] starters(entries, pfx)[j]
                        == (entries[k].name@.skip(pfx.len() as int), entries[k].contents@);
                assert(code@[jw].1@ == entries[k].contents@);
            }
        }
        Ok(Exercise { config, code })
    }

    /// Resolves an exercise directory against its schema, then reads the
    /// exercise out of it. `id` is the full hierarchical id, `seg` its
    /// trailing segment, which names the starting-source files.
    ///
    /// The schema demands `instructions.md`, `config.toml`, a `src/`
    /// directory, a starting source `src/<seg>.<ext>` and a generator
    /// `src/generator.<ext>`; the first entry found missing is a
    /// `SchemaViolation` naming it — in particular, a directory with no
    /// generator source fails naming `src/generator.<code>`, however valid
    /// the rest may be. Resolution succeeds exactly when the schema and
    /// `from_raw_ok` are both satisfied.
    pub fn parse_from_dir(
        contents: &DirContents,
        id: &str,
        seg: &str,
        reg: &Registry,
        state: &mut ParseState,
    ) -> (r: Result<Exercise, CompileError>)
        requires
            old(state).wf(),
        ensures
            final(state).wf(),
            final(state).articles_map() == old(state).articles_map(),
            final(state).configs_map() == old(state).configs_map(),
            final(state).courses_map() == old(state).courses_map(),
            forall|k: (Seq<char>, Seq<char>)|
                old(state).quizzes_map().contains_key(k) ==> final(state).quizzes_map().contains_key(k),
            r is Ok <==> (has_file(contents.entries@, "instructions.md"@) && has_file(
                contents.entries@,
                "config.toml"@,
            ) && has_dir(contents.entries@, "src"@) && has_file_with_prefix(
                contents.entries@,
                "src/"@ + seg@ + "."@,
            ) && has_file_with_prefix(contents.entries@, "src/generator."@) && from_raw_ok(
                contents.entries@,
                seg@,
                reg.entries@,
            )),
            r matches Ok(ex) ==> code_matches(
                ex.code@,
                contents.entries@,
                "src/"@ + seg@ + "."@,
            ) && code_covers(ex.code@, contents.entries@, "src/"@ + seg@ + "."@),
            !has_file(contents.entries@, "instructions.md"@) ==> r is Err
                && r->Err_0 is SchemaViolation && r->Err_0->SchemaViolation_0@
                == "instructions.md"@,
            has_file(contents.entries@, "instructions.md"@) && !has_file(
                contents.entries@,
                "config.toml"@,
            ) ==> r is Err && r->Err_0 is SchemaViolation && r->Err_0->SchemaViolation_0@
                == "config.toml"@,
            has_file(contents.entries@, "instructions.md"@) && has_file(
                contents.entries@,
                "config.toml"@,
            ) && !has_dir(contents.entries@, "src"@) ==> r is Err && r->Err_0 is SchemaViolation
                && r->Err_0->SchemaViolation_0@ == "src/"@,
            has_file(contents.entries@, "instructions.md"@) && has_file(
                contents.entries@,
                "config.toml"@,
            ) && has_dir(contents.entries@, "src"@) && !has_file_with_prefix(
                contents.entries@,
                "src/"@ + seg@ + "."@,
            ) ==> r is Err && r->Err_0 is SchemaViolation && r->Err_0->SchemaViolation_0@ == "src/"@
                + seg@ + ".<code>"@,
            has_file(contents.entries@, "instructions.md"@) && has_file(
                contents.entries@,
                "config.toml"@,
            ) && has_dir(contents.entries@, "src"@) && has_file_with_prefix(
                contents.entries@,
                "src/"@ + seg@ + "."@,
            ) && !has_file_with_prefix(contents.entries@, "src/generator."@) ==> r is Err
                && r->Err_0 is SchemaViolation && r->Err_0->SchemaViolation_0@
                == "src/generator.<code>"@,
    {
        if contents.find_file("instructions.md").is_none() {
            return Err(CompileError::SchemaViolation(String::from_str("instructions.md")));
        }
        if contents.find_file("config.toml").is_none() {
            return Err(CompileError::SchemaViolation(String::from_str("config.toml")));
        }
        if !contents.has_dir_named("src") {
            return Err(CompileError::SchemaViolation(String::from_str("src/")));
        }
        let start_prefix = String::from_str("src/").concat(seg).concat(".");
        if !contents.has_code_file(start_prefix.as_str()) {
            let shown = String::from_str("src/").concat(seg).concat(".<code>");
            proof {
                assert(start_prefix@ =~= "src/"@ + seg@ + "."@);
                assert(shown@ =~= "src/"@ + seg@ + ".<code>"@);
            }
            return Err(CompileError::SchemaViolation(shown));
        }
        if !contents.has_code_file("src/generator.") {
            proof {
                assert(start_prefix@ =~= "src/"@ + seg@ + "."@);
            }
            return Err(CompileError::SchemaViolation(String::from_str("src/generator.<code>")));
        }
        proof {
            assert(start_prefix@ =~= "src/"@ + seg@ + "."@);
        }
        Exercise::from_raw(contents, id, seg, reg, state)
    }
}

} // verus!

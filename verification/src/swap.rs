//! The swap engine: configured path/content substitution rules, their
//! materialization against the variable bag, and their application to
//! destination paths and text file content during copy.

use vstd::prelude::*;
use crate::errors::Error;
use crate::fsio::FsIo;
use crate::txt;
use crate::txt::{spec_splice, spec_occurrences};
use crate::urls::opt_view;
use crate::varbag::VarBag;

verus! {

/// Whether the regex crate, given this pattern, matches this text; a
/// malformed pattern matches nothing. A function of the two strings alone.
pub uninterp spec fn regex_match(pattern: Seq<char>, text: Seq<char>) -> bool;

/// Relies on regex::Regex::new and regex::Regex::is_match: compiles the
/// pattern and tests the text; a malformed pattern matches nothing.
#[verifier::external_body]
fn regex_is_match(pattern: &String, text: &String) -> (r: bool)
    ensures
        r == regex_match(pattern@, text@),
{
    regex::Regex::new(pattern).map(|re| re.is_match(text)).unwrap_or(false)
}

/// Relies on tera::Tera::render_str, with the case-transform filters of
/// tera-text-filters registered, rendering the template against the bag's
/// variables. An undefined variable or malformed template is an error.
#[verifier::external_body]
fn render_template(template: &String, vars: &VarBag) -> (r: Result<String, String>)
{
    let mut tera = tera::Tera::default();
    tera_text_filters::register_all(&mut tera);
    let mut context = tera::Context::new();
    let mut i: usize = 0;
    while i < vars.len() {
        let (k, v) = vars.entry_at(i);
        context.insert(k.as_str(), v);
        i += 1;
    }
    tera.render_str(template, &context).map_err(|e| e.to_string())
}

/// Whether the content_inspector crate reads a byte sample as text; a
/// function of the bytes alone.
pub uninterp spec fn text_inspection(bytes: Seq<u8>) -> bool;

/// Relies on content_inspector::inspect: text or binary, from the
/// leading bytes.
#[verifier::external_body]
fn inspect_is_text(bytes: &Vec<u8>) -> (r: bool)
    ensures
        r == text_inspection(bytes@),
{
    content_inspector::inspect(bytes).is_text()
}

/// The characters a byte sequence decodes to as UTF-8, or nothing when it
/// is not valid UTF-8; a function of the bytes alone.
pub uninterp spec fn utf8_decoding(bytes: Seq<u8>) -> Option<Seq<char>>;

/// Relies on String::from_utf8: decodes the bytes or reports them
/// invalid.
#[verifier::external_body]
fn decode_utf8(bytes: Vec<u8>) -> (r: Result<String, String>)
    ensures
        (r is Ok) == (utf8_decoding(bytes@) is Some),
        r matches Ok(s) ==> utf8_decoding(bytes@) == Some(s@),
{
    String::from_utf8(bytes).map_err(|e| e.to_string())
}

/// Where a substitution rule applies: to paths, to content, or to both.
#[derive(Debug, Clone, PartialEq, Eq, Structural)]
pub enum SwapKind {
    All,
    Content,
    Path,
}

impl Default for SwapKind {
    fn default() -> (r: SwapKind)
        ensures
            r is All,
    {
        SwapKind::All
    }
}

/// One configured substitution rule: every occurrence of `key` becomes
/// the resolved value. Exactly one of `val` and `val_template` must
/// supply the value; `path` is a pattern narrowing which paths the rule
/// touches. The pattern is held as its source text; one that does not
/// compile matches nothing, so a configuration loader that wants to
/// surface bad patterns must reject them before building a rule.
#[derive(Debug, Clone)]
pub struct Swap {
    pub key: String,
    pub val_template: Option<String>,
    pub val: Option<String>,
    pub path: Option<String>,
    pub kind: SwapKind,
}

impl Default for Swap {
    fn default() -> (r: Swap)
        ensures
            r.key@ == Seq::<char>::empty(),
            r.val_template is None,
            r.val is None,
            r.path is None,
            r.kind is All,
    {
        Swap { key: String::new(), val_template: None, val: None, path: None, kind: SwapKind::All }
    }
}

impl Swap {
    /// Whether this rule touches the given path string.
    pub open spec fn spec_match_path(&self, p: Seq<char>) -> bool {
        match self.kind {
            SwapKind::Path | SwapKind::All => match opt_view(self.path) {
                Some(rx) => regex_match(rx, p),
                None => true,
            },
            SwapKind::Content => false,
        }
    }

    /// Whether this rule touches the content of a file at the given path.
    pub open spec fn spec_match_content(&self, p: Seq<char>) -> bool {
        match self.kind {
            SwapKind::Content | SwapKind::All => match opt_view(self.path) {
                Some(rx) => regex_match(rx, p),
                None => true,
            },
            SwapKind::Path => false,
        }
    }

    pub fn match_path(&self, p: &String) -> (r: bool)
        ensures
            r == self.spec_match_path(p@),
    {
        match self.kind {
            SwapKind::Path | SwapKind::All => match &self.path {
                Some(rx) => regex_is_match(rx, p),
                None => true,
            },
            SwapKind::Content => false,
        }
    }

    pub fn match_content(&self, p: &String) -> (r: bool)
        ensures
            r == self.spec_match_content(p@),
    {
        match self.kind {
            SwapKind::Content | SwapKind::All => match &self.path {
                Some(rx) => regex_is_match(rx, p),
                None => true,
            },
            SwapKind::Path => false,
        }
    }
}

/// A materialized rule keeps the source's key, kind and pattern, and
/// holds a concrete value; a configured verbatim value wins over a
/// template.
pub open spec fn materialized_from(m: Swap, s: Swap) -> bool {
    &&& m.key@ == s.key@
    &&& m.kind == s.kind
    &&& opt_view(m.path) == opt_view(s.path)
    &&& opt_view(m.val_template) == opt_view(s.val_template)
    &&& m.val is Some
    &&& s.val matches Some(v) ==> opt_view(m.val) == Some(v@)
}

/// A whole rule list is the materialization of a configured one: same
/// length, each rule materialized from its source.
pub open spec fn spec_materialization_of(ms: Seq<Swap>, src: Seq<Swap>) -> bool {
    ms.len() == src.len() && (forall|i: int|
        0 <= i < src.len() ==> materialized_from(#[trigger] ms[i], src[i]))
}

/// The result of one file copy: where it landed and whether content was
/// rendered, with how many substitutions.
#[derive(Debug, Clone)]
pub struct CopyResult {
    pub dest: String,
    pub op: SwapOp,
}

#[derive(Debug, Clone, PartialEq, Eq, Structural)]
pub enum SwapOp {
    Copied,
    Rendered(usize),
}

/// Declaration-order application of every path-matching rule: matching is
/// against the original path, replacements chain.
pub open spec fn spec_path_swaps(swaps: Seq<Swap>, orig: Seq<char>, acc: Seq<char>) -> Seq<char>
    decreases swaps.len(),
{
    if swaps.len() == 0 {
        acc
    } else {
        let acc2 = if swaps[0].spec_match_path(orig) && swaps[0].val is Some {
            spec_splice(acc, swaps[0].key@, swaps[0].val->Some_0@)
        } else {
            acc
        };
        spec_path_swaps(swaps.skip(1), orig, acc2)
    }
}

/// Declaration-order application of every content-matching rule to text,
/// counting substitutions; the count saturates at the machine limit.
pub open spec fn spec_content_swaps(
    swaps: Seq<Swap>,
    orig: Seq<char>,
    acc: Seq<char>,
    cnt: nat,
) -> (Seq<char>, nat)
    decreases swaps.len(),
{
    if swaps.len() == 0 {
        (acc, cnt)
    } else if swaps[0].spec_match_content(orig) && swaps[0].val is Some {
        let c2 = cnt + spec_occurrences(acc, swaps[0].key@);
        let c3 = if c2 > usize::MAX { usize::MAX as nat } else { c2 };
        spec_content_swaps(
            swaps.skip(1),
            orig,
            spec_splice(acc, swaps[0].key@, swaps[0].val->Some_0@),
            c3,
        )
    } else {
        spec_content_swaps(swaps.skip(1), orig, acc, cnt)
    }
}

/// Every rule in the list already holds a concrete value.
pub open spec fn all_swaps_valued(swaps: Seq<Swap>) -> bool {
    forall|i: int| 0 <= i < swaps.len() ==> (#[trigger] swaps[i].val) is Some
}

/// Every rule in the list has a value source: a verbatim value or a
/// template. A rule with neither is a configuration error.
pub open spec fn all_swaps_sourced(swaps: Seq<Swap>) -> bool {
    forall|i: int|
        0 <= i < swaps.len() ==> ((#[trigger] swaps[i].val) is Some || swaps[i].val_template
            is Some)
}

/// Any rule in the list touches content at this path.
pub open spec fn spec_any_content_match(swaps: Seq<Swap>, p: Seq<char>) -> bool {
    exists|i: int| 0 <= i < swaps.len() && (#[trigger] swaps[i]).spec_match_content(p)
}

/// The swap engine, materialized once per run: every rule holds a
/// concrete value.
#[derive(Debug)]
pub struct Swapper {
    pub swaps: Vec<Swap>,
}

impl Swapper {
    /// All rules hold concrete values.
    pub open spec fn wf(&self) -> bool {
        forall|i: int| 0 <= i < self.swaps@.len() ==> (#[trigger] self.swaps@[i]).val is Some
    }

    /// Create a swapper with fully populated rules: a configured value is
    /// kept verbatim; a template is rendered against the bag once, here; a
    /// rule with neither is a configuration error.
    pub fn with_vars(swaps: Option<&Vec<Swap>>, vars: &VarBag) -> (r: Result<Swapper, Error>)
        ensures
            r matches Ok(sw) ==> {
                let src = match swaps {
                    Some(v) => v@,
                    None => Seq::<Swap>::empty(),
                };
                &&& sw.wf()
                &&& sw.swaps@.len() == src.len()
                &&& forall|i: int|
                    0 <= i < src.len() ==> materialized_from(#[trigger] sw.swaps@[i], src[i])
            },
            (match swaps {
                Some(v) => all_swaps_valued(v@),
                None => true,
            }) ==> r is Ok,
            r is Ok ==> (match swaps {
                Some(v) => all_swaps_sourced(v@),
                None => true,
            }),
            r matches Err(e) ==> (e is SwapConfig || e is SwapRender),
            r matches Err(e) ==> (e is SwapConfig ==> (match swaps {
                Some(v) => !all_swaps_sourced(v@),
                None => false,
            })),
    {
        let mut out: Vec<Swap> = Vec::new();
        match swaps {
            None => Ok(Swapper { swaps: out }),
            Some(list) => {
                let ghost src = list@;
                let mut i: usize = 0;
                while i < list.len()
                    invariant
                        i <= src.len(),
                        list@ == src,
                        swaps == Some(list),
                        out@.len() == i,
                        forall|j: int|
                            0 <= j < i ==> materialized_from(#[trigger] out@[j], src[j])
                                && out@[j].val is Some,
                        forall|j: int|
                            0 <= j < i ==> (#[trigger] src[j].val) is Some || src[j].val_template
                                is Some,
                    decreases list.len() - i,
                {
                    let s = &list[i];
                    let val: String = match (&s.val, &s.val_template) {
                        (Some(v), _) => v.clone(),
                        (None, Some(t)) => match render_template(t, vars) {
                            Ok(rendered) => rendered,
                            Err(m) => {
                                proof {
                                    assert(list@[i as int].val is None);
                                    assert(!all_swaps_valued(list@));
                                }
                                return Err(Error::SwapRender(m));
                            },
                        },
                        (None, None) => {
                            let mut m = String::new();
                            m.append("each swap should have either `val` or `val_template`");
                            proof {
                                assert(list@[i as int].val is None);
                                assert(list@[i as int].val_template is None);
                                assert(!all_swaps_valued(list@));
                                assert(!all_swaps_sourced(list@));
                            }
                            return Err(Error::SwapConfig(m));
                        },
                    };
                    out.push(
                        Swap {
                            key: s.key.clone(),
                            val_template: crate::data::clone_opt(&s.val_template),
                            val: Some(val),
                            path: crate::data::clone_opt(&s.path),
                            kind: clone_kind(&s.kind),
                        },
                    );
                    i = i + 1;
                }
                Ok(Swapper { swaps: out })
            },
        }
    }

    /// The destination path with every path-matching rule applied in
    /// declaration order, each seeing the previous one's output.
    pub fn path(&self, p: &String) -> (r: String)
        ensures
            r@ == spec_path_swaps(self.swaps@, p@, p@),
    {
        let orig = p;
        let mut acc: Vec<char> = txt::to_chars(p.as_str());
        let mut i: usize = 0;
        proof {
            assert(self.swaps@.skip(0) =~= self.swaps@);
        }
        while i < self.swaps.len()
            invariant
                i <= self.swaps@.len(),
                spec_path_swaps(self.swaps@.skip(i as int), orig@, acc@) == spec_path_swaps(
                    self.swaps@,
                    orig@,
                    orig@,
                ),
            decreases self.swaps@.len() - i,
        {
            let s = &self.swaps[i];
            proof {
                assert(self.swaps@.skip(i as int)[0] == self.swaps@[i as int]);
                assert(self.swaps@.skip(i as int).skip(1) =~= self.swaps@.skip(i + 1));
            }
            if s.match_path(orig) {
                match &s.val {
                    Some(v) => {
                        let key = txt::to_chars(s.key.as_str());
                        let val = txt::to_chars(v.as_str());
                        acc = txt::replace_all(&acc, &key, &val);
                    },
                    None => {},
                }
            }
            i = i + 1;
        }
        proof {
            assert(self.swaps@.skip(self.swaps@.len() as int) =~= Seq::<Swap>::empty());
        }
        txt::chars_string(&acc)
    }

    /// Text content with every content-matching rule for `source` applied
    /// in declaration order, and the total number of substitutions made.
    pub fn render_content(&self, source: &String, original: &String) -> (r: (String, usize))
        ensures
            (r.0@, r.1 as nat) == spec_content_swaps(self.swaps@, source@, original@, 0),
    {
        let mut acc: Vec<char> = txt::to_chars(original.as_str());
        let mut cnt: usize = 0;
        let mut i: usize = 0;
        proof {
            assert(self.swaps@.skip(0) =~= self.swaps@);
        }
        while i < self.swaps.len()
            invariant
                i <= self.swaps@.len(),
                spec_content_swaps(self.swaps@.skip(i as int), source@, acc@, cnt as nat)
                    == spec_content_swaps(self.swaps@, source@, original@, 0),
            decreases self.swaps@.len() - i,
        {
            let s = &self.swaps[i];
            proof {
                assert(self.swaps@.skip(i as int)[0] == self.swaps@[i as int]);
                assert(self.swaps@.skip(i as int).skip(1) =~= self.swaps@.skip(i + 1));
            }
            if s.match_content(source) {
                match &s.val {
                    Some(v) => {
                        let key = txt::to_chars(s.key.as_str());
                        let val = txt::to_chars(v.as_str());
                        let occ = txt::count_occurrences(&acc, &key);
                        cnt = if cnt <= usize::MAX - occ {
                            cnt + occ
                        } else {
                            usize::MAX
                        };
                        acc = txt::replace_all(&acc, &key, &val);
                    },
                    None => {},
                }
            }
            i = i + 1;
        }
        proof {
            assert(self.swaps@.skip(self.swaps@.len() as int) =~= Seq::<Swap>::empty());
        }
        (txt::chars_string(&acc), cnt)
    }

    /// The rendering decision for read content: bytes the inspector reads
    /// as binary are kept untouched; text is decoded and every content
    /// rule for the source applied, with the substitution count; text
    /// that does not decode fails the copy it belongs to.
    pub fn render_bytes(&self, source: &String, bytes: Vec<u8>) -> (r: Result<
        Option<(String, usize)>,
        Error,
    >)
        ensures
            !text_inspection(bytes@) ==> (r matches Ok(o) && o is None),
            text_inspection(bytes@) ==> (match utf8_decoding(bytes@) {
                Some(chars) => r matches Ok(o) && (o matches Some(p) && (p.0@, p.1 as nat)
                    == spec_content_swaps(self.swaps@, source@, chars, 0)),
                None => r matches Err(e) && e is Io,
            }),
    {
        if inspect_is_text(&bytes) {
            match decode_utf8(bytes) {
                Ok(text) => {
                    let (rendered, count) = self.render_content(source, &text);
                    Ok(Some((rendered, count)))
                },
                Err(m) => Err(Error::Io(m)),
            }
        } else {
            Ok(None)
        }
    }

    /// Copy from `source` to the swapped image of `dest`, creating missing
    /// parent folders: byte-for-byte when no content rule matches the
    /// source or the content reads as binary; otherwise the rendered text,
    /// with its substitution count.
    pub fn copy_to<F: FsIo>(&self, fs: &mut F, source: &String, dest: &String) -> (r: Result<
        CopyResult,
        Error,
    >)
        ensures
            r matches Ok(res) ==> res.dest@ == spec_path_swaps(self.swaps@, dest@, dest@),
            r matches Ok(res) ==> (!spec_any_content_match(self.swaps@, source@)
                ==> res.op is Copied),
            r matches Ok(res) ==> (res.op matches SwapOp::Rendered(_) ==> spec_any_content_match(
                self.swaps@,
                source@,
            )),
            r matches Err(e) ==> e is Io,
    {
        let swapped = self.path(dest);
        match parent_of(&swapped) {
            Some(parent) => {
                if !parent.as_str().is_empty() && !fs.path_exists(&parent) {
                    match fs.create_dir_all(&parent) {
                        Ok(()) => {},
                        Err(m) => {
                            return Err(Error::Io(m));
                        },
                    }
                }
            },
            None => {},
        }
        let mut any: bool = false;
        let mut i: usize = 0;
        while i < self.swaps.len()
            invariant
                i <= self.swaps@.len(),
                any == exists|j: int|
                    0 <= j < i && (#[trigger] self.swaps@[j]).spec_match_content(source@),
            decreases self.swaps@.len() - i,
        {
            if self.swaps[i].match_content(source) {
                any = true;
            }
            i = i + 1;
        }
        if !any {
            match fs.copy_file(source, &swapped) {
                Ok(()) => {
                    return Ok(CopyResult { dest: swapped, op: SwapOp::Copied });
                },
                Err(m) => {
                    return Err(Error::Io(m));
                },
            }
        }
        let bytes = match fs.read(source) {
            Ok(b) => b,
            Err(m) => {
                return Err(Error::Io(m));
            },
        };
        match self.render_bytes(source, bytes) {
            Ok(Some((rendered, count))) => match fs.write_text(&swapped, &rendered) {
                Ok(()) => Ok(CopyResult { dest: swapped, op: SwapOp::Rendered(count) }),
                Err(m) => Err(Error::Io(m)),
            },
            Ok(None) => match fs.copy_file(source, &swapped) {
                Ok(()) => Ok(CopyResult { dest: swapped, op: SwapOp::Copied }),
                Err(m) => Err(Error::Io(m)),
            },
            Err(e) => Err(e),
        }
    }

    /// Whether the swapped image of `dest` already exists on disk.
    pub fn target_exists<F: FsIo>(&self, fs: &F, dest: &String) -> bool {
        let p = self.path(dest);
        fs.path_exists(&p)
    }
}

fn clone_kind(k: &SwapKind) -> (r: SwapKind)
    ensures
        r == *k,
{
    match k {
        SwapKind::All => SwapKind::All,
        SwapKind::Content => SwapKind::Content,
        SwapKind::Path => SwapKind::Path,
    }
}

/// Everything before the last `/`: the parent folder of a path, or
/// nothing for a bare name.
pub fn parent_of(p: &String) -> (r: Option<String>)
    ensures
        match r {
            Some(parent) => exists|i: int|
                0 <= i < p@.len() && p@[i] == '/' && parent@ == p@.take(i),
            None => forall|j: int| 0 <= j < p@.len() ==> p@[j] != '/',
        },
{
    let chars = txt::to_chars(p.as_str());
    let mut k: usize = chars.len();
    while k > 0
        invariant
            k <= chars@.len(),
            chars@ == p@,
            forall|j: int| k <= j < p@.len() ==> p@[j] != '/',
        decreases k,
    {
        k = k - 1;
        if chars[k] == '/' {
            let mut head = txt::dup(&chars);
            head.truncate(k);
            proof {
                assert(head@ =~= p@.take(k as int));
            }
            return Some(txt::chars_string(&head));
        }
    }
    None
}

} // verus!

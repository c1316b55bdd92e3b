use vstd::prelude::*;
use vstd::utf8::{decode_utf8, valid_utf8};

use crate::text::{
    chars_of, decimal_of, lemma_trimmed_chars, lemma_trimmed_idempotent, push_char, push_chars,
    push_decimal, trim_chars, trimmed,
};

verus! {

/// How deep source files may nest through directives before the chain is
/// taken for a cycle.
pub const MAX_NESTING: usize = 16;

/// What can go wrong while a shader program is put together.
#[derive(Debug)]
pub enum ShaderError {
    /// The stage was given neither a file nor inline text.
    NoSource,
    /// No source file under this data path.
    NotFound(String),
    /// The file under this data path is not valid UTF-8.
    BadEncoding(String),
    /// A directive line without a quoted path.
    DirectiveSyntax,
    /// Files nest deeper than `MAX_NESTING`, as a cycle would; the path is the
    /// one that would have been read next.
    NestingTooDeep(String),
    /// The stage with this source identifier did not compile.
    Compile(String),
    /// The two stages did not link.
    Link,
}

/// `ShaderError` with its paths as character sequences.
pub enum ShaderFault {
    NoSource,
    NotFound(Seq<char>),
    BadEncoding(Seq<char>),
    DirectiveSyntax,
    NestingTooDeep(Seq<char>),
    Compile(Seq<char>),
    Link,
}

impl View for ShaderError {
    type V = ShaderFault;

    open spec fn view(&self) -> ShaderFault {
        match self {
            ShaderError::NoSource => ShaderFault::NoSource,
            ShaderError::NotFound(p) => ShaderFault::NotFound(p@),
            ShaderError::BadEncoding(p) => ShaderFault::BadEncoding(p@),
            ShaderError::DirectiveSyntax => ShaderFault::DirectiveSyntax,
            ShaderError::NestingTooDeep(p) => ShaderFault::NestingTooDeep(p@),
            ShaderError::Compile(n) => ShaderFault::Compile(n@),
            ShaderError::Link => ShaderFault::Link,
        }
    }
}

/// A textual result seen through its view.
pub open spec fn outcome(r: Result<String, ShaderError>) -> Result<Seq<char>, ShaderFault> {
    match r {
        Ok(s) => Ok(s@),
        Err(e) => Err(e@),
    }
}

/// One file of the data layer, by its full data path.
#[derive(Debug)]
pub struct SourceFile {
    pub path: String,
    pub bytes: Vec<u8>,
}

/// The shader source files that the data layer offers.
#[derive(Debug)]
pub struct ShaderFiles {
    files: Vec<SourceFile>,
}

/// The bytes stored under `path`: the first entry with that path wins.
pub open spec fn lookup(entries: Seq<(Seq<char>, Seq<u8>)>, path: Seq<char>) -> Option<Seq<u8>>
    decreases entries.len(),
{
    if entries.len() == 0 {
        None
    } else if entries[0].0 == path {
        Some(entries[0].1)
    } else {
        lookup(entries.drop_first(), path)
    }
}

impl View for ShaderFiles {
    type V = Seq<(Seq<char>, Seq<u8>)>;

    closed spec fn view(&self) -> Seq<(Seq<char>, Seq<u8>)> {
        Seq::new(self.files@.len(), |i: int| (self.files@[i].path@, self.files@[i].bytes@))
    }
}

impl ShaderFiles {
    pub fn new() -> (r: ShaderFiles)
        ensures
            r@ == Seq::<(Seq<char>, Seq<u8>)>::empty(),
    {
        let r = ShaderFiles { files: Vec::new() };
        assert(r@ =~= Seq::<(Seq<char>, Seq<u8>)>::empty());
        r
    }

    /// Adds a file; an earlier file under the same path keeps precedence.
    pub fn add(&mut self, path: String, bytes: Vec<u8>)
        ensures
            final(self)@ == old(self)@.push((path@, bytes@)),
    {
        self.files.push(SourceFile { path, bytes });
        assert(self@ =~= old(self)@.push((path@, bytes@)));
    }

    /// The bytes of the file under `path`.
    pub fn find(&self, path: &String) -> (r: Option<&Vec<u8>>)
        ensures
            match r {
                Some(b) => lookup(self@, path@) == Some(b@),
                None => lookup(self@, path@) is None,
            },
    {
        let mut i: usize = 0;
        assert(self@.subrange(0, self@.len() as int) =~= self@);
        while i < self.files.len()
            invariant
                i <= self.files@.len(),
                lookup(self@, path@) == lookup(self@.subrange(i as int, self@.len() as int), path@),
            decreases self.files.len() - i,
        {
            let ghost rest = self@.subrange(i as int, self@.len() as int);
            assert(rest[0] == self@[i as int]);
            if self.files[i].path == *path {
                return Some(&self.files[i].bytes);
            }
            assert(rest.drop_first() =~= self@.subrange(i + 1, self@.len() as int));
            i = i + 1;
        }
        None
    }
}

/// Relies on std::str::from_utf8: it accepts exactly the well-formed UTF-8
/// byte strings and then yields the characters they encode.
#[verifier::external_body]
fn utf8_text(bytes: &Vec<u8>) -> (r: Option<String>)
    ensures
        r is Some <==> valid_utf8(bytes@),
        r matches Some(t) ==> t@ == decode_utf8(bytes@),
{
    std::str::from_utf8(bytes.as_slice()).ok().map(String::from)
}

/// The directory of the data layer that shader paths are relative to.
pub open spec fn shader_root() -> Seq<char> {
    seq!['g', 'l', 's', 'l', '/']
}

/// The directive that splices another source file in.
pub open spec fn directive() -> Seq<char> {
    seq!['#', 'i', 'n', 'c', 'l', 'u', 'd', 'e']
}

pub open spec fn is_directive(line: Seq<char>) -> bool {
    line.len() >= directive().len() && line.subrange(0, directive().len() as int) == directive()
}

/// Index of the first quote at or after `from`, or the length when there is none.
pub open spec fn quote_from(s: Seq<char>, from: nat) -> nat
    decreases s.len() - from,
{
    if from >= s.len() {
        s.len()
    } else if s[from as int] == '"' {
        from
    } else {
        quote_from(s, from + 1)
    }
}

/// The text between the first and the second quote of `s`.
pub open spec fn quoted(s: Seq<char>) -> Option<Seq<char>> {
    let i = quote_from(s, 0);
    if i >= s.len() {
        None
    } else {
        let j = quote_from(s, i + 1);
        if j >= s.len() {
            None
        } else {
            Some(s.subrange((i + 1) as int, j as int))
        }
    }
}

/// Reads `s` from the front: the lines ended by a newline so far, and the
/// unfinished line.
pub open spec fn scan(s: Seq<char>) -> (Seq<Seq<char>>, Seq<char>)
    decreases s.len(),
{
    if s.len() == 0 {
        (seq![], seq![])
    } else {
        let (done, cur) = scan(s.drop_last());
        if s.last() == '\n' {
            (done.push(cur), seq![])
        } else {
            (done, cur.push(s.last()))
        }
    }
}

/// The lines of `s`, split at each newline; a final line ending is optional.
pub open spec fn split_lines(s: Seq<char>) -> Seq<Seq<char>> {
    let (done, cur) = scan(s);
    if cur.len() == 0 {
        done
    } else {
        done.push(cur)
    }
}

/// What preprocessing makes of `text`, when files may still nest `depth` deep.
pub open spec fn preprocessed(
    files: Seq<(Seq<char>, Seq<u8>)>,
    text: Seq<char>,
    depth: nat,
) -> Result<Seq<char>, ShaderFault>
    decreases depth, 3nat, 0nat,
{
    lines_out(files, split_lines(text), depth)
}

/// The output of the given lines, or the first error among them.
pub open spec fn lines_out(
    files: Seq<(Seq<char>, Seq<u8>)>,
    lines: Seq<Seq<char>>,
    depth: nat,
) -> Result<Seq<char>, ShaderFault>
    decreases depth, 2nat, lines.len(),
{
    if lines.len() == 0 {
        Ok(seq![])
    } else {
        match lines_out(files, lines.drop_last(), depth) {
            Err(e) => Err(e),
            Ok(o) => match line_out(files, lines.last(), depth) {
                Err(e) => Err(e),
                Ok(x) => Ok(o + x),
            },
        }
    }
}

/// One line: a directive becomes the preprocessed file it names, any other
/// line is kept trimmed; either way a newline follows.
pub open spec fn line_out(
    files: Seq<(Seq<char>, Seq<u8>)>,
    line: Seq<char>,
    depth: nat,
) -> Result<Seq<char>, ShaderFault>
    decreases depth, 1nat, 0nat,
{
    let t = trimmed(line);
    if is_directive(t) {
        match quoted(t) {
            None => Err(ShaderFault::DirectiveSyntax),
            Some(p) => match loaded(files, p, depth) {
                Err(e) => Err(e),
                Ok(x) => Ok(x.push('\n')),
            },
        }
    } else {
        Ok(t.push('\n'))
    }
}

/// The preprocessed contents of the file `path` under the shader root.
pub open spec fn loaded(
    files: Seq<(Seq<char>, Seq<u8>)>,
    path: Seq<char>,
    depth: nat,
) -> Result<Seq<char>, ShaderFault>
    decreases depth, 0nat, 0nat,
{
    let full = shader_root() + path;
    if depth == 0 {
        Err(ShaderFault::NestingTooDeep(full))
    } else {
        match lookup(files, full) {
            None => Err(ShaderFault::NotFound(full)),
            Some(b) => if valid_utf8(b) {
                preprocessed(files, decode_utf8(b), (depth - 1) as nat)
            } else {
                Err(ShaderFault::BadEncoding(full))
            },
        }
    }
}

fn starts_with_directive(t: &Vec<char>) -> (r: bool)
    ensures
        r == is_directive(t@),
{
    if t.len() < 8 {
        return false;
    }
    let r = t[0] == '#' && t[1] == 'i' && t[2] == 'n' && t[3] == 'c' && t[4] == 'l' && t[5] == 'u'
        && t[6] == 'd' && t[7] == 'e';
    assert(r == (t@.subrange(0, 8) =~= directive()));
    r
}

fn find_quote(s: &Vec<char>, from: usize) -> (r: usize)
    requires
        from <= s@.len(),
    ensures
        r as nat == quote_from(s@, from as nat),
        from <= r,
{
    let mut i: usize = from;
    while i < s.len() && s[i] != '"'
        invariant
            from <= i <= s@.len(),
            quote_from(s@, from as nat) == quote_from(s@, i as nat),
        decreases s.len() - i,
    {
        i = i + 1;
    }
    i
}

fn quoted_path(s: &Vec<char>) -> (r: Option<Vec<char>>)
    ensures
        match r {
            Some(p) => quoted(s@) == Some(p@),
            None => quoted(s@) is None,
        },
{
    let i = find_quote(s, 0);
    if i >= s.len() {
        return None;
    }
    let j = find_quote(s, i + 1);
    if j >= s.len() {
        return None;
    }
    let mut p: Vec<char> = Vec::new();
    let mut k: usize = i + 1;
    while k < j
        invariant
            i + 1 <= k <= j < s@.len(),
            p@ == s@.subrange(i + 1, k as int),
        decreases j - k,
    {
        p.push(s[k]);
        k = k + 1;
        assert(p@ =~= s@.subrange(i + 1, k as int));
    }
    Some(p)
}

fn load_at(files: &ShaderFiles, path: &Vec<char>, depth: usize) -> (r: Result<String, ShaderError>)
    ensures
        outcome(r) == loaded(files@, path@, depth as nat),
    decreases depth, 0nat,
{
    let mut full = String::new();
    full.append("glsl/");
    proof {
        reveal_strlit("glsl/");
        assert(full@ =~= shader_root());
    }
    push_chars(&mut full, path);
    if depth == 0 {
        return Err(ShaderError::NestingTooDeep(full));
    }
    match files.find(&full) {
        None => Err(ShaderError::NotFound(full)),
        Some(bytes) => match utf8_text(bytes) {
            None => Err(ShaderError::BadEncoding(full)),
            Some(text) => preprocess_at(files, text.as_str(), depth - 1),
        },
    }
}

fn line_at(files: &ShaderFiles, line: &Vec<char>, depth: usize) -> (r: Result<String, ShaderError>)
    ensures
        outcome(r) == line_out(files@, line@, depth as nat),
    decreases depth, 1nat,
{
    let t = trim_chars(line);
    if starts_with_directive(&t) {
        match quoted_path(&t) {
            None => Err(ShaderError::DirectiveSyntax),
            Some(p) => match load_at(files, &p, depth) {
                Err(e) => Err(e),
                Ok(mut x) => {
                    push_char(&mut x, '\n');
                    Ok(x)
                },
            },
        }
    } else {
        let mut x = String::new();
        push_chars(&mut x, &t);
        push_char(&mut x, '\n');
        assert(x@ =~= trimmed(line@).push('\n'));
        Ok(x)
    }
}

proof fn lemma_lines_out_push(
    files: Seq<(Seq<char>, Seq<u8>)>,
    lines: Seq<Seq<char>>,
    line: Seq<char>,
    depth: nat,
)
    ensures
        lines_out(files, lines.push(line), depth) == (match lines_out(files, lines, depth) {
            Err(e) => Err(e),
            Ok(o) => match line_out(files, line, depth) {
                Err(e) => Err(e),
                Ok(x) => Ok(o + x),
            },
        }),
{
    assert(lines.push(line).drop_last() =~= lines);
}

pub open spec fn is_prefix<T>(a: Seq<T>, b: Seq<T>) -> bool {
    a.len() <= b.len() && b.subrange(0, a.len() as int) == a
}

/// Once some lines fail, more lines after them change nothing.
proof fn lemma_lines_out_prefix_err(
    files: Seq<(Seq<char>, Seq<u8>)>,
    a: Seq<Seq<char>>,
    b: Seq<Seq<char>>,
    depth: nat,
)
    requires
        is_prefix(a, b),
        lines_out(files, a, depth) is Err,
    ensures
        lines_out(files, b, depth) == lines_out(files, a, depth),
    decreases b.len(),
{
    if b.len() == a.len() {
        assert(b =~= a);
    } else {
        assert(b.drop_last().subrange(0, a.len() as int) =~= b.subrange(0, a.len() as int));
        lemma_lines_out_prefix_err(files, a, b.drop_last(), depth);
    }
}

/// The lines finished after `i` characters start the lines of the whole text.
proof fn lemma_scan_prefix(s: Seq<char>, i: int)
    requires
        0 <= i <= s.len(),
    ensures
        is_prefix(scan(s.take(i)).0, split_lines(s)),
    decreases s.len() - i,
{
    if i == s.len() {
        assert(s.take(i) =~= s);
        let d = scan(s).0;
        assert(d.subrange(0, d.len() as int) =~= d);
        assert(d.push(scan(s).1).subrange(0, d.len() as int) =~= d);
    } else {
        lemma_scan_prefix(s, i + 1);
        lemma_scan_step(s, i);
        let a = scan(s.take(i)).0;
        let b = scan(s.take(i + 1)).0;
        let c = split_lines(s);
        assert(b.subrange(0, a.len() as int) =~= a);
        assert(c.subrange(0, a.len() as int) =~= b.subrange(0, a.len() as int));
    }
}

proof fn lemma_scan_step(s: Seq<char>, i: int)
    requires
        0 <= i < s.len(),
    ensures
        scan(s.take(i + 1)) == (if s[i] == '\n' {
            (scan(s.take(i)).0.push(scan(s.take(i)).1), Seq::<char>::empty())
        } else {
            (scan(s.take(i)).0, scan(s.take(i)).1.push(s[i]))
        }),
{
    assert(s.take(i + 1).drop_last() =~= s.take(i));
    assert(s.take(i + 1).last() == s[i]);
}

fn preprocess_at(files: &ShaderFiles, data: &str, depth: usize) -> (r: Result<String, ShaderError>)
    ensures
        outcome(r) == preprocessed(files@, data@, depth as nat),
    decreases depth, 2nat,
{
    let mut out = String::new();
    let mut cur: Vec<char> = Vec::new();
    for c in it: data.chars()
        invariant
            it.seq() == data@,
            cur@ == scan(data@.take(it.index() as int)).1,
            lines_out(files@, scan(data@.take(it.index() as int)).0, depth as nat) == Ok::<
                Seq<char>,
                ShaderFault,
            >(out@),
    {
        proof {
            lemma_scan_step(data@, it.index() as int);
        }
        if c == '\n' {
            proof {
                lemma_lines_out_push(
                    files@,
                    scan(data@.take(it.index() as int)).0,
                    cur@,
                    depth as nat,
                );
            }
            match line_at(files, &cur, depth) {
                Err(e) => {
                    proof {
                        lemma_scan_prefix(data@, it.index() + 1);
                        lemma_lines_out_prefix_err(
                            files@,
                            scan(data@.take(it.index() + 1)).0,
                            split_lines(data@),
                            depth as nat,
                        );
                    }
                    return Err(e);
                },
                Ok(x) => {
                    out.append(x.as_str());
                },
            }
            cur = Vec::new();
        } else {
            cur.push(c);
        }
    }
    proof {
        assert(data@.take(data@.len() as int) =~= data@);
    }
    if cur.len() > 0 {
        proof {
            lemma_lines_out_push(files@, scan(data@).0, cur@, depth as nat);
        }
        match line_at(files, &cur, depth) {
            Err(e) => {
                return Err(e);
            },
            Ok(x) => {
                out.append(x.as_str());
            },
        }
    }
    Ok(out)
}

pub const GL_FRAGMENT_SHADER: u32 = 0x8B30;

pub const GL_VERTEX_SHADER: u32 = 0x8B31;

/// The two stages a program is linked from.
#[derive(Debug, Clone, Copy, PartialEq, Eq, Structural)]
pub enum ShaderType {
    Fragment,
    Vertex,
}

impl ShaderType {
    /// The OpenGL enum that names the stage.
    pub fn to_gl(&self) -> (r: u32)
        ensures
            r == (match self {
                ShaderType::Fragment => GL_FRAGMENT_SHADER,
                ShaderType::Vertex => GL_VERTEX_SHADER,
            }),
    {
        match self {
            ShaderType::Fragment => GL_FRAGMENT_SHADER,
            ShaderType::Vertex => GL_VERTEX_SHADER,
        }
    }
}

/// A linked program and the source identifiers of its two stages.
#[derive(Debug)]
pub struct Shader {
    pub vertname: String,
    pub fragname: String,
    pub program: u32,
}

/// Where the text of one stage comes from.
#[derive(Debug)]
pub enum ShaderSource {
    /// A file under the shader root.
    Path(String),
    /// Inline text.
    Data(String),
    /// No source given.
    Absent,
}

/// The preprocessed text of a stage source.
pub open spec fn resolved(
    src: ShaderSource,
    files: Seq<(Seq<char>, Seq<u8>)>,
) -> Result<Seq<char>, ShaderFault> {
    match src {
        ShaderSource::Path(p) => loaded(files, p@, MAX_NESTING as nat),
        ShaderSource::Data(d) => preprocessed(files, d@, MAX_NESTING as nat),
        ShaderSource::Absent => Err(ShaderFault::NoSource),
    }
}

/// The identifier a stage source is reported under.
pub open spec fn source_name(src: ShaderSource) -> Seq<char> {
    match src {
        ShaderSource::Path(p) => p@,
        ShaderSource::Data(_) => "DATA"@,
        ShaderSource::Absent => "NONE"@,
    }
}

impl ShaderSource {
    /// Splits `data` into lines, trims each, and replaces each directive line
    /// by the preprocessed file it names.
    pub fn preprocess(files: &ShaderFiles, data: &str) -> (r: Result<String, ShaderError>)
        ensures
            outcome(r) == preprocessed(files@, data@, MAX_NESTING as nat),
    {
        preprocess_at(files, data, MAX_NESTING)
    }

    /// Reads the file `path` under the shader root, decodes and preprocesses it.
    pub fn load_file(files: &ShaderFiles, path: &str) -> (r: Result<String, ShaderError>)
        ensures
            outcome(r) == loaded(files@, path@, MAX_NESTING as nat),
    {
        let p = chars_of(path);
        load_at(files, &p, MAX_NESTING)
    }

    pub fn to_string(&self, files: &ShaderFiles) -> (r: Result<String, ShaderError>)
        ensures
            outcome(r) == resolved(*self, files@),
    {
        match self {
            ShaderSource::Path(path) => Self::load_file(files, path.as_str()),
            ShaderSource::Data(data) => Self::preprocess(files, data.as_str()),
            ShaderSource::Absent => Err(ShaderError::NoSource),
        }
    }

    pub fn name(&self) -> (r: String)
        ensures
            r@ == source_name(*self),
    {
        match self {
            ShaderSource::Path(path) => path.clone(),
            ShaderSource::Data(_) => String::from_str("DATA"),
            ShaderSource::Absent => String::from_str("NONE"),
        }
    }
}

/// The text put before every stage: the version line first, then the
/// version and feature macros.
pub open spec fn prologue(glsl: nat) -> Seq<char> {
    "#version "@ + decimal_of(glsl) + "\n\n#define GLSL_VERSION "@ + decimal_of(glsl)
        + "\n#define HAS_GL_ARB_shader_subroutine 1\n"@
}

pub fn prologue_text(glsl: u32) -> (r: String)
    ensures
        r@ == prologue(glsl as nat),
{
    let mut s = String::new();
    s.append("#version ");
    push_decimal(&mut s, glsl);
    s.append("\n\n#define GLSL_VERSION ");
    push_decimal(&mut s, glsl);
    s.append("\n#define HAS_GL_ARB_shader_subroutine 1\n");
    s
}

/// The full texts of both stages, ready to compile.
#[derive(Debug)]
pub struct ShaderStages {
    pub vertname: String,
    pub fragname: String,
    pub vert_source: String,
    pub frag_source: String,
}

/// Collects the two stage sources and the text to put after the prologue.
#[derive(Debug)]
pub struct ShaderBuilder {
    pub name: Option<String>,
    pub vert: ShaderSource,
    pub frag: ShaderSource,
    pub prepend: String,
}

impl ShaderBuilder {
    pub fn new(name: Option<&str>) -> (r: ShaderBuilder)
        ensures
            r.vert is Absent,
            r.frag is Absent,
            r.prepend@ == Seq::<char>::empty(),
            r.name matches Some(n) ==> name matches Some(m) && n@ == m@,
            r.name is None <==> name is None,
    {
        let name = match name {
            Some(n) => Some(String::from_str(n)),
            None => None,
        };
        ShaderBuilder { name, vert: ShaderSource::Absent, frag: ShaderSource::Absent, prepend: String::new() }
    }

    pub fn vert_file(self, path: &str) -> (r: ShaderBuilder)
        ensures
            r.vert matches ShaderSource::Path(p) && p@ == path@,
            r.frag == self.frag && r.prepend == self.prepend && r.name == self.name,
    {
        ShaderBuilder { vert: ShaderSource::Path(String::from_str(path)), ..self }
    }

    pub fn frag_file(self, path: &str) -> (r: ShaderBuilder)
        ensures
            r.frag matches ShaderSource::Path(p) && p@ == path@,
            r.vert == self.vert && r.prepend == self.prepend && r.name == self.name,
    {
        ShaderBuilder { frag: ShaderSource::Path(String::from_str(path)), ..self }
    }

    pub fn vert_data(self, data: &str) -> (r: ShaderBuilder)
        ensures
            r.vert matches ShaderSource::Data(d) && d@ == data@,
            r.frag == self.frag && r.prepend == self.prepend && r.name == self.name,
    {
        ShaderBuilder { vert: ShaderSource::Data(String::from_str(data)), ..self }
    }

    pub fn frag_data(self, data: &str) -> (r: ShaderBuilder)
        ensures
            r.frag matches ShaderSource::Data(d) && d@ == data@,
            r.vert == self.vert && r.prepend == self.prepend && r.name == self.name,
    {
        ShaderBuilder { frag: ShaderSource::Data(String::from_str(data)), ..self }
    }

    pub fn prepend(self, data: &str) -> (r: ShaderBuilder)
        ensures
            r.prepend@ == data@,
            r.vert == self.vert && r.frag == self.frag && r.name == self.name,
    {
        ShaderBuilder { prepend: String::from_str(data), ..self }
    }

    /// Resolves both stages and puts the prologue for shading-language version
    /// `glsl` and then the prepend text before each.
    pub fn build(&self, files: &ShaderFiles, glsl: u32) -> (r: Result<ShaderStages, ShaderError>)
        ensures
            match (resolved(self.vert, files@), resolved(self.frag, files@)) {
                (Err(e), _) => r matches Err(f) && f@ == e,
                (Ok(_), Err(e)) => r matches Err(f) && f@ == e,
                (Ok(v), Ok(f)) => r matches Ok(st) && st.vert_source@ == prologue(glsl as nat)
                    + self.prepend@ + v && st.frag_source@ == prologue(glsl as nat) + self.prepend@
                    + f && st.vertname@ == source_name(self.vert) && st.fragname@ == source_name(
                    self.frag,
                ),
            },
    {
        let vertdata = match self.vert.to_string(files) {
            Ok(t) => t,
            Err(e) => {
                return Err(e);
            },
        };
        let fragdata = match self.frag.to_string(files) {
            Ok(t) => t,
            Err(e) => {
                return Err(e);
            },
        };
        let mut vert_source = prologue_text(glsl);
        vert_source.append(self.prepend.as_str());
        vert_source.append(vertdata.as_str());
        let mut frag_source = prologue_text(glsl);
        frag_source.append(self.prepend.as_str());
        frag_source.append(fragdata.as_str());
        Ok(ShaderStages { vertname: self.vert.name(), fragname: self.frag.name(), vert_source, frag_source })
    }
}

/// Where building a program from its two stages stands.
#[derive(Debug)]
pub enum BuildPhase {
    /// The vertex stage is to be compiled next.
    CompileVertex,
    /// The fragment stage is to be compiled next.
    CompileFragment,
    /// Both stages compiled; they are to be linked, and deleted after the attempt.
    Link,
    Built,
    Failed(ShaderError),
}

/// The phase after `phase`, given whether its compile or link step succeeded.
pub open spec fn next_phase(stages: ShaderStages, phase: BuildPhase, succeeded: bool) -> BuildPhase {
    match phase {
        BuildPhase::CompileVertex => if succeeded {
            BuildPhase::CompileFragment
        } else {
            BuildPhase::Failed(ShaderError::Compile(stages.vertname))
        },
        BuildPhase::CompileFragment => if succeeded {
            BuildPhase::Link
        } else {
            BuildPhase::Failed(ShaderError::Compile(stages.fragname))
        },
        BuildPhase::Link => if succeeded {
            BuildPhase::Built
        } else {
            BuildPhase::Failed(ShaderError::Link)
        },
        _ => phase,
    }
}

impl BuildPhase {
    /// Moves on after the step of this phase; `Built` and `Failed` stay.
    pub fn advance(self, stages: &ShaderStages, succeeded: bool) -> (r: BuildPhase)
        ensures
            r == next_phase(*stages, self, succeeded),
    {
        match self {
            BuildPhase::CompileVertex => if succeeded {
                BuildPhase::CompileFragment
            } else {
                BuildPhase::Failed(ShaderError::Compile(stages.vertname.clone()))
            },
            BuildPhase::CompileFragment => if succeeded {
                BuildPhase::Link
            } else {
                BuildPhase::Failed(ShaderError::Compile(stages.fragname.clone()))
            },
            BuildPhase::Link => if succeeded {
                BuildPhase::Built
            } else {
                BuildPhase::Failed(ShaderError::Link)
            },
            _ => self,
        }
    }
}

pub open spec fn no_newline(s: Seq<char>) -> bool {
    forall|k: int| 0 <= k < s.len() ==> s[k] != '\n'
}

/// The output for lines none of which is a directive: each trimmed, with a
/// newline after it.
pub open spec fn plain_out(lines: Seq<Seq<char>>) -> Seq<char>
    decreases lines.len(),
{
    if lines.len() == 0 {
        seq![]
    } else {
        plain_out(lines.drop_last()) + trimmed(lines.last()).push('\n')
    }
}

proof fn lemma_trimmed_no_newline(s: Seq<char>)
    requires
        no_newline(s),
    ensures
        no_newline(trimmed(s)),
{
    lemma_trimmed_chars(s);
}

proof fn lemma_scan_no_newline(s: Seq<char>)
    ensures
        no_newline(scan(s).1),
        forall|k: int| 0 <= k < scan(s).0.len() ==> no_newline(#[trigger] scan(s).0[k]),
    decreases s.len(),
{
    if s.len() > 0 {
        lemma_scan_no_newline(s.drop_last());
        let (d, c) = scan(s.drop_last());
        if s.last() == '\n' {
            assert forall|k: int| 0 <= k < d.push(c).len() implies no_newline(#[trigger] d.push(c)[k]) by {
                if k < d.len() {
                    assert(d.push(c)[k] == d[k]);
                }
            }
        } else {
            assert forall|k: int| 0 <= k < c.push(s.last()).len() implies c.push(s.last())[k] != '\n' by {
                if k < c.len() {
                    assert(c.push(s.last())[k] == c[k]);
                }
            }
        }
    }
}

proof fn lemma_split_no_newline(s: Seq<char>)
    ensures
        forall|k: int| 0 <= k < split_lines(s).len() ==> no_newline(#[trigger] split_lines(s)[k]),
{
    lemma_scan_no_newline(s);
    let (d, c) = scan(s);
    assert forall|k: int| 0 <= k < split_lines(s).len() implies no_newline(#[trigger] split_lines(s)[k]) by {
        if k < d.len() {
            assert(split_lines(s)[k] == d[k]);
        }
    }
}

proof fn lemma_lines_out_plain(files: Seq<(Seq<char>, Seq<u8>)>, lines: Seq<Seq<char>>, depth: nat)
    requires
        forall|k: int| 0 <= k < lines.len() ==> !is_directive(trimmed(#[trigger] lines[k])),
    ensures
        lines_out(files, lines, depth) == Ok::<Seq<char>, ShaderFault>(plain_out(lines)),
    decreases lines.len(),
{
    if lines.len() > 0 {
        assert forall|k: int| 0 <= k < lines.drop_last().len() implies !is_directive(
            trimmed(#[trigger] lines.drop_last()[k]),
        ) by {
            assert(lines.drop_last()[k] == lines[k]);
        }
        lemma_lines_out_plain(files, lines.drop_last(), depth);
        assert(!is_directive(trimmed(lines.last())));
        assert(line_out(files, lines.last(), depth) == Ok::<Seq<char>, ShaderFault>(
            trimmed(lines.last()).push('\n'),
        ));
    }
}

/// Reading a line without newline, after finished lines, leaves it unfinished.
proof fn lemma_scan_partial(p: Seq<char>, t: Seq<char>, i: int)
    requires
        scan(p).1.len() == 0,
        no_newline(t),
        0 <= i <= t.len(),
    ensures
        scan(p + t.take(i)) == (scan(p).0, t.take(i)),
    decreases i,
{
    if i == 0 {
        assert(p + t.take(0) =~= p);
        assert(t.take(0) =~= scan(p).1);
    } else {
        lemma_scan_partial(p, t, i - 1);
        assert((p + t.take(i)).drop_last() =~= p + t.take(i - 1));
        assert((p + t.take(i)).last() == t[i - 1]);
        assert(t.take(i - 1).push(t[i - 1]) =~= t.take(i));
    }
}

proof fn lemma_scan_line(p: Seq<char>, t: Seq<char>)
    requires
        scan(p).1.len() == 0,
        no_newline(t),
    ensures
        scan(p + t.push('\n')) == (scan(p).0.push(t), Seq::<char>::empty()),
{
    lemma_scan_partial(p, t, t.len() as int);
    assert(t.take(t.len() as int) =~= t);
    assert((p + t.push('\n')).drop_last() =~= p + t);
    assert((p + t.push('\n')).last() == '\n');
}

proof fn lemma_scan_plain(lines: Seq<Seq<char>>)
    requires
        forall|k: int| 0 <= k < lines.len() ==> no_newline(#[trigger] lines[k]),
    ensures
        scan(plain_out(lines)) == (lines.map_values(|l: Seq<char>| trimmed(l)), Seq::<char>::empty()),
    decreases lines.len(),
{
    if lines.len() == 0 {
        assert(lines.map_values(|l: Seq<char>| trimmed(l)) =~= Seq::<Seq<char>>::empty());
    } else {
        let init = lines.drop_last();
        assert forall|k: int| 0 <= k < init.len() implies no_newline(#[trigger] init[k]) by {
            assert(init[k] == lines[k]);
        }
        lemma_scan_plain(init);
        lemma_trimmed_no_newline(lines.last());
        lemma_scan_line(plain_out(init), trimmed(lines.last()));
        assert(init.map_values(|l: Seq<char>| trimmed(l)).push(trimmed(lines.last()))
            =~= lines.map_values(|l: Seq<char>| trimmed(l)));
    }
}

proof fn lemma_plain_out_trimmed(lines: Seq<Seq<char>>)
    ensures
        plain_out(lines.map_values(|l: Seq<char>| trimmed(l))) == plain_out(lines),
    decreases lines.len(),
{
    if lines.len() > 0 {
        let m = lines.map_values(|l: Seq<char>| trimmed(l));
        assert(m.drop_last() =~= lines.drop_last().map_values(|l: Seq<char>| trimmed(l)));
        lemma_plain_out_trimmed(lines.drop_last());
        lemma_trimmed_idempotent(lines.last());
    }
}

/// On text without directive lines, preprocessing the output again gives the
/// same output.
pub proof fn lemma_preprocess_idempotent(files: Seq<(Seq<char>, Seq<u8>)>, text: Seq<char>, depth: nat)
    requires
        forall|k: int|
            0 <= k < split_lines(text).len() ==> !is_directive(trimmed(#[trigger] split_lines(text)[k])),
    ensures
        preprocessed(files, text, depth) is Ok,
        preprocessed(files, preprocessed(files, text, depth)->Ok_0, depth) == preprocessed(files, text, depth),
{
    let lines = split_lines(text);
    lemma_lines_out_plain(files, lines, depth);
    lemma_split_no_newline(text);
    lemma_scan_plain(lines);
    let m = lines.map_values(|l: Seq<char>| trimmed(l));
    assert(split_lines(plain_out(lines)) == m);
    assert forall|k: int| 0 <= k < m.len() implies !is_directive(trimmed(#[trigger] m[k])) by {
        lemma_trimmed_idempotent(lines[k]);
    }
    lemma_lines_out_plain(files, m, depth);
    lemma_plain_out_trimmed(lines);
}

/// A directive line without two quotes fails with a syntax error, before any
/// file is looked up.
pub proof fn lemma_malformed_directive(files: Seq<(Seq<char>, Seq<u8>)>, line: Seq<char>, depth: nat)
    requires
        is_directive(trimmed(line)),
        quoted(trimmed(line)) is None,
    ensures
        line_out(files, line, depth) == Err::<Seq<char>, ShaderFault>(ShaderFault::DirectiveSyntax),
{
}

/// A failing compile of the vertex stage ends the build with a compile error
/// naming that stage; no link is attempted.
pub proof fn lemma_vertex_failure(stages: ShaderStages)
    ensures
        next_phase(stages, BuildPhase::CompileVertex, false) == BuildPhase::Failed(
            ShaderError::Compile(stages.vertname),
        ),
        forall|ok: bool|
            #![auto]
            next_phase(stages, next_phase(stages, BuildPhase::CompileVertex, false), ok)
                == next_phase(stages, BuildPhase::CompileVertex, false),
{
}

} // verus!

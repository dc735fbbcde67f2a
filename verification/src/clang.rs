//! The compiler wrapper that builds targets with Almond's LLVM passes.
//!
//! The wrapper reads a compiler command line (`parse_args`), remembers what
//! it means (compiling or linking, output file, instrumentation switches) and
//! then plans the command that runs clang for a configuration
//! (`command_for_configuration`). A plan is a list of parts: literal
//! arguments, and places where the configuration's tagged file names, its
//! flags or the paths of pass plugins go. Turning a plan into strings, which
//! needs the configuration and the file system, is the caller's part.
use vstd::prelude::*;
use crate::mutations::strings_view;

verus! {

use vstd::string::StrSliceExecFns;

/// The kind of platform the wrapper runs on, as far as the command line
/// depends on it.
#[derive(Debug, Clone, Copy, PartialEq, Eq, Structural)]
pub enum Platform {
    Windows,
    Apple,
    Linux,
    /// Any other Unix.
    OtherUnix,
}

/// Whether the platform is a Unix.
pub open spec fn is_unix(p: Platform) -> bool {
    p != Platform::Windows
}

/// The extension of dynamic libraries on a platform.
pub open spec fn dll_ext(p: Platform) -> Seq<char> {
    match p {
        Platform::Windows => "dll"@,
        Platform::Apple => "dylib"@,
        _ => "so"@,
    }
}

/// The extension of dynamic libraries on `platform`.
pub fn dll_extension(platform: Platform) -> (e: &'static str)
    ensures
        e@ == dll_ext(platform),
{
    match platform {
        Platform::Windows => "dll",
        Platform::Apple => "dylib",
        _ => "so",
    }
}

/// An LLVM pass for the wrapper to load, identified by the basename of its
/// compiled plugin.
#[derive(Debug, Clone, PartialEq, Eq)]
pub struct LLVMPass {
    name: String,
}

impl LLVMPass {
    /// The basename of the plugin.
    pub closed spec fn name_view(&self) -> Seq<char> {
        self.name@
    }

    /// A pass identified by its plugin basename (`"my-pass"` is the plugin
    /// `my-pass.so`, `.dylib` or `.dll`).
    pub fn new(name: &str) -> (p: Self)
        ensures
            p.name_view() == name@,
    {
        LLVMPass { name: String::from_str(name) }
    }

    /// Almond's built-in `transform-pass`.
    pub fn transform() -> (p: Self)
        ensures
            p.name_view() == "transform-pass"@,
    {
        Self::new("transform-pass")
    }

    /// Almond's built-in `syscall-pass`.
    pub fn syscall() -> (p: Self)
        ensures
            p.name_view() == "syscall-pass"@,
    {
        Self::new("syscall-pass")
    }

    /// The basename of the plugin.
    pub fn name(&self) -> (s: &str)
        ensures
            s@ == self.name_view(),
    {
        self.name.as_str()
    }

    /// The file name of the plugin on `platform`: the basename, a dot and
    /// the platform's dynamic library extension.
    pub fn file_name(&self, platform: Platform) -> (f: String)
        ensures
            f@ == self.name_view() + "."@ + dll_ext(platform),
    {
        let mut f = self.name.clone();
        f.append(".");
        f.append(dll_extension(platform));
        f
    }
}

/// The extension of `s` read as a path (what `std::path::Path::extension`
/// gives), when it has one.
pub uninterp spec fn path_extension(s: Seq<char>) -> Option<Seq<char>>;

/// `std::path::Path::extension` of `s` read as a path: the result is a
/// function of `s` alone, named [`path_extension`]; its value is not stated
/// here. (An extension of a `&str` path is a substring of it, so it is valid
/// UTF-8.)
#[verifier::external_body]
fn extension_of(s: &str) -> (e: Option<String>)
    ensures
        e matches Some(x) ==> path_extension(s@) == Some(x@),
        e is None ==> path_extension(s@) is None,
{
    std::path::Path::new(s).extension().and_then(|x| x.to_str()).map(|x| x.to_string())
}

/// The lowercase of `s` (what `str::to_lowercase` gives).
pub uninterp spec fn lowercase(s: Seq<char>) -> Seq<char>;

/// `str::to_lowercase`: the result is a function of `s` alone, named
/// [`lowercase`]; the Unicode case mapping itself is not stated here.
#[verifier::external_body]
fn to_lowercase(s: &str) -> (l: String)
    ensures
        l@ == lowercase(s@),
{
    s.to_lowercase()
}

/// Whether `a` and `b` are the same string.
fn str_eq(a: &str, b: &str) -> (r: bool)
    ensures
        r == (a@ == b@),
{
    String::from_str(a) == String::from_str(b)
}

/// Whether `s` ends with `suffix`.
pub open spec fn has_suffix(s: Seq<char>, suffix: Seq<char>) -> bool {
    s.len() >= suffix.len() && s.subrange(s.len() - suffix.len(), s.len() as int) == suffix
}

/// Whether `s` ends with `suffix`.
fn ends_with(s: &str, suffix: &str) -> (r: bool)
    ensures
        r == has_suffix(s@, suffix@),
{
    let n = s.unicode_len();
    let m = suffix.unicode_len();
    if n < m {
        return false;
    }
    let mut k: usize = 0;
    while k < m
        invariant
            n == s@.len(),
            m == suffix@.len(),
            m <= n,
            0 <= k <= m,
            forall|j: int| 0 <= j < k ==> s@[n - m + j] == suffix@[j],
        decreases m - k,
    {
        if s.get_char(n - m + k) != suffix.get_char(k) {
            assert(s@.subrange(n - m, n as int)[k as int] != suffix@[k as int]);
            return false;
        }
        k = k + 1;
    }
    assert(s@.subrange(n - m, n as int) =~= suffix@);
    true
}

/// Whether `c` is the letter given in its lowercase and uppercase forms.
pub open spec fn is_letter(c: char, lower: char, upper: char) -> bool {
    c == lower || c == upper
}

/// Which compiler a wrapper program named `name` stands for, from the last
/// two characters of its name, case aside: `cc` is C (`Some(false)`); `++`,
/// `pp` and `xx` are C++ (`Some(true)`); any other ending, or a name shorter
/// than two characters, is neither (`None`).
pub open spec fn wrapper_kind(name: Seq<char>) -> Option<bool> {
    if name.len() < 2 {
        None
    } else {
        let a = name[name.len() - 2];
        let b = name[name.len() - 1];
        if is_letter(a, 'c', 'C') && is_letter(b, 'c', 'C') {
            Some(false)
        } else if (a == '+' && b == '+') || (is_letter(a, 'p', 'P') && is_letter(b, 'p', 'P')) || (
        is_letter(a, 'x', 'X') && is_letter(b, 'x', 'X')) {
            Some(true)
        } else {
            None
        }
    }
}

/// Whether the wrapper program named `name` compiles C++ (`Some(true)`) or
/// C (`Some(false)`); `None` when its name ends in neither way.
pub fn wrapper_is_cpp(name: &str) -> (r: Option<bool>)
    ensures
        r == wrapper_kind(name@),
{
    let n = name.unicode_len();
    if n < 2 {
        return None;
    }
    let a = name.get_char(n - 2);
    let b = name.get_char(n - 1);
    if (a == 'c' || a == 'C') && (b == 'c' || b == 'C') {
        Some(false)
    } else if (a == '+' && b == '+') || ((a == 'p' || a == 'P') && (b == 'p' || b == 'P')) || ((a
        == 'x' || a == 'X') && (b == 'x' || b == 'X')) {
        Some(true)
    } else {
        None
    }
}

/// Whether `s` starts with the character `c`.
fn starts_with_char(s: &str, c: char) -> (r: bool)
    ensures
        r == (s@.len() > 0 && s@[0] == c),
{
    s.unicode_len() > 0 && s.get_char(0) == c
}

/// The pieces of `rest` between occurrences of `c`, after the pieces `done`
/// and a piece `cur` begun so far.
pub open spec fn split_from(done: Seq<Seq<char>>, cur: Seq<char>, rest: Seq<char>, c: char) -> Seq<
    Seq<char>,
>
    decreases rest.len(),
{
    if rest.len() == 0 {
        done.push(cur)
    } else if rest[0] == c {
        split_from(done.push(cur), Seq::<char>::empty(), rest.drop_first(), c)
    } else {
        split_from(done, cur.push(rest[0]), rest.drop_first(), c)
    }
}

/// The pieces of `s` between occurrences of `c` (what `str::split` gives):
/// one more piece than there are occurrences.
pub open spec fn split_on(s: Seq<char>, c: char) -> Seq<Seq<char>> {
    split_from(Seq::<Seq<char>>::empty(), Seq::<char>::empty(), s, c)
}

/// The pieces of `s` between commas.
fn split_commas(s: &str) -> (pieces: Vec<String>)
    ensures
        strings_view(pieces@) == split_on(s@, ','),
{
    let n = s.unicode_len();
    let mut pieces: Vec<String> = Vec::new();
    let mut cur = String::new();
    let mut i: usize = 0;
    assert(strings_view(pieces@) =~= Seq::<Seq<char>>::empty());
    assert(s@.skip(0) =~= s@);
    while i < n
        invariant
            n == s@.len(),
            0 <= i <= n,
            split_from(strings_view(pieces@), cur@, s@.skip(i as int), ',') == split_on(s@, ','),
        decreases n - i,
    {
        let ch = s.get_char(i);
        proof {
            assert(s@.skip(i as int)[0] == ch);
            assert(s@.skip(i as int).drop_first() =~= s@.skip(i + 1));
        }
        if ch == ',' {
            let piece = cur;
            let ghost before = strings_view(pieces@);
            pieces.push(piece);
            cur = String::new();
            proof {
                assert(strings_view(pieces@) =~= before.push(piece@));
            }
        } else {
            let ghost old_cur = cur@;
            cur.append(s.substring_char(i, i + 1));
            proof {
                assert(s@.subrange(i as int, i + 1) =~= seq![ch]);
                assert(cur@ =~= old_cur.push(ch));
            }
        }
        i = i + 1;
    }
    let ghost before = strings_view(pieces@);
    proof {
        assert(s@.skip(n as int) =~= Seq::<char>::empty());
    }
    pieces.push(cur);
    proof {
        assert(strings_view(pieces@) =~= before.push(pieces@.last()@));
    }
    pieces
}

/// The view of an optional string.
pub open spec fn opt_view(o: Option<String>) -> Option<Seq<char>> {
    match o {
        Some(x) => Some(x@),
        None => None,
    }
}

/// The basenames of passes.
pub open spec fn pass_names(ps: Seq<LLVMPass>) -> Seq<Seq<char>> {
    Seq::new(ps.len(), |i: int| ps[i].name_view())
}

/// Why the wrapper refused a command line.
#[derive(Debug, Clone, PartialEq, Eq)]
pub enum WrapperError {
    /// The command line is not one the wrapper can act on.
    InvalidArguments(String),
    /// The wrapper was used out of order.
    Unknown(String),
}

/// The abstract state of a [`ClangWrapper`].
#[verifier::ext_equal]
pub struct ClangWrapperView {
    pub platform: Platform,
    pub is_silent: bool,
    pub optimize: bool,
    pub wrapped_cc: Seq<char>,
    pub wrapped_cxx: Seq<char>,
    /// The wrapper's own name, as invoked.
    pub name: Seq<char>,
    pub is_cpp: bool,
    pub is_asm: bool,
    pub linking: bool,
    pub shared: bool,
    pub x_set: bool,
    pub bit_mode: u32,
    pub has_libafl_arg: bool,
    pub output: Option<Seq<char>>,
    /// Configuration names given with `--libafl-configurations`, in order.
    pub configuration_names: Seq<Seq<char>>,
    pub ignoring_configurations: bool,
    pub parse_args_called: bool,
    pub base_args: Seq<Seq<char>>,
    pub cc_args: Seq<Seq<char>>,
    pub link_args: Seq<Seq<char>>,
    /// Basenames of the passes to load.
    pub passes: Seq<Seq<char>>,
    pub passes_args: Seq<Seq<char>>,
    pub passes_linking_args: Seq<Seq<char>>,
}

/// Wraps clang: turns a compiler command line into one that builds with
/// Almond's instrumentation.
#[derive(Debug)]
pub struct ClangWrapper {
    platform: Platform,
    is_silent: bool,
    optimize: bool,
    wrapped_cc: String,
    wrapped_cxx: String,
    name: String,
    is_cpp: bool,
    is_asm: bool,
    linking: bool,
    shared: bool,
    x_set: bool,
    bit_mode: u32,
    has_libafl_arg: bool,
    output: Option<String>,
    configuration_names: Vec<String>,
    ignoring_configurations: bool,
    parse_args_called: bool,
    base_args: Vec<String>,
    cc_args: Vec<String>,
    link_args: Vec<String>,
    passes: Vec<LLVMPass>,
    passes_args: Vec<String>,
    passes_linking_args: Vec<String>,
}

impl View for ClangWrapper {
    type V = ClangWrapperView;

    closed spec fn view(&self) -> ClangWrapperView {
        ClangWrapperView {
            platform: self.platform,
            is_silent: self.is_silent,
            optimize: self.optimize,
            wrapped_cc: self.wrapped_cc@,
            wrapped_cxx: self.wrapped_cxx@,
            name: self.name@,
            is_cpp: self.is_cpp,
            is_asm: self.is_asm,
            linking: self.linking,
            shared: self.shared,
            x_set: self.x_set,
            bit_mode: self.bit_mode,
            has_libafl_arg: self.has_libafl_arg,
            output: opt_view(self.output),
            configuration_names: strings_view(self.configuration_names@),
            ignoring_configurations: self.ignoring_configurations,
            parse_args_called: self.parse_args_called,
            base_args: strings_view(self.base_args@),
            cc_args: strings_view(self.cc_args@),
            link_args: strings_view(self.link_args@),
            passes: pass_names(self.passes@),
            passes_args: strings_view(self.passes_args@),
            passes_linking_args: strings_view(self.passes_linking_args@),
        }
    }
}

/// Appends a copy of `s` to `v`.
fn push_str(v: &mut Vec<String>, s: &str)
    ensures
        strings_view(final(v)@) == strings_view(old(v)@).push(s@),
{
    v.push(String::from_str(s));
    assert(strings_view(v@) =~= strings_view(old(v)@).push(s@));
}

impl ClangWrapper {
    /// A wrapper of the compilers `wrapped_cc` and `wrapped_cxx` on
    /// `platform`: optimizing, linking off until a command line is parsed,
    /// nothing parsed, no passes.
    pub fn new(platform: Platform, wrapped_cc: &str, wrapped_cxx: &str) -> (w: Self)
        ensures
            w@ == (ClangWrapperView {
                platform,
                is_silent: false,
                optimize: true,
                wrapped_cc: wrapped_cc@,
                wrapped_cxx: wrapped_cxx@,
                name: Seq::<char>::empty(),
                is_cpp: false,
                is_asm: false,
                linking: false,
                shared: false,
                x_set: false,
                bit_mode: 0,
                has_libafl_arg: false,
                output: None,
                configuration_names: Seq::<Seq<char>>::empty(),
                ignoring_configurations: false,
                parse_args_called: false,
                base_args: Seq::<Seq<char>>::empty(),
                cc_args: Seq::<Seq<char>>::empty(),
                link_args: Seq::<Seq<char>>::empty(),
                passes: Seq::<Seq<char>>::empty(),
                passes_args: Seq::<Seq<char>>::empty(),
                passes_linking_args: Seq::<Seq<char>>::empty(),
            }),
    {
        let w = ClangWrapper {
            platform,
            is_silent: false,
            optimize: true,
            wrapped_cc: String::from_str(wrapped_cc),
            wrapped_cxx: String::from_str(wrapped_cxx),
            name: String::new(),
            is_cpp: false,
            is_asm: false,
            linking: false,
            shared: false,
            x_set: false,
            bit_mode: 0,
            has_libafl_arg: false,
            output: None,
            configuration_names: Vec::new(),
            ignoring_configurations: false,
            parse_args_called: false,
            base_args: Vec::new(),
            cc_args: Vec::new(),
            link_args: Vec::new(),
            passes: Vec::new(),
            passes_args: Vec::new(),
            passes_linking_args: Vec::new(),
        };
        proof {
            assert(strings_view(w.base_args@) =~= Seq::<Seq<char>>::empty());
            assert(strings_view(w.cc_args@) =~= Seq::<Seq<char>>::empty());
            assert(strings_view(w.link_args@) =~= Seq::<Seq<char>>::empty());
            assert(strings_view(w.passes_args@) =~= Seq::<Seq<char>>::empty());
            assert(strings_view(w.passes_linking_args@) =~= Seq::<Seq<char>>::empty());
            assert(strings_view(w.configuration_names@) =~= Seq::<Seq<char>>::empty());
            assert(pass_names(w.passes@) =~= Seq::<Seq<char>>::empty());
        }
        w
    }

    /// Sets C++ mode; to be called before [`ClangWrapper::parse_args`].
    pub fn cpp(&mut self, value: bool)
        ensures
            final(self)@ == (ClangWrapperView { is_cpp: value, ..old(self)@ }),
    {
        self.is_cpp = value;
    }

    /// Adds an LLVM pass to load.
    pub fn add_pass(&mut self, pass: LLVMPass)
        ensures
            final(self)@ == (ClangWrapperView {
                passes: old(self)@.passes.push(pass.name_view()),
                ..old(self)@
            }),
    {
        self.passes.push(pass);
        assert(pass_names(self.passes@) =~= pass_names(old(self).passes@).push(pass.name_view()));
    }

    /// Switches optimization flags on or off.
    pub fn optimize(&mut self, value: bool)
        ensures
            final(self)@ == (ClangWrapperView { optimize: value, ..old(self)@ }),
    {
        self.optimize = value;
    }

    /// Adds an argument to the compiler command.
    pub fn add_arg(&mut self, arg: &str)
        ensures
            final(self)@ == (ClangWrapperView {
                base_args: old(self)@.base_args.push(arg@),
                ..old(self)@
            }),
    {
        push_str(&mut self.base_args, arg);
    }

    /// Adds an argument used when compiling without linking.
    pub fn add_cc_arg(&mut self, arg: &str)
        ensures
            final(self)@ == (ClangWrapperView { cc_args: old(self)@.cc_args.push(arg@), ..old(self)@ }),
    {
        push_str(&mut self.cc_args, arg);
    }

    /// Adds an argument used when linking.
    pub fn add_link_arg(&mut self, arg: &str)
        ensures
            final(self)@ == (ClangWrapperView {
                link_args: old(self)@.link_args.push(arg@),
                ..old(self)@
            }),
    {
        push_str(&mut self.link_args, arg);
    }

    /// Links the whole of the static library `lib_file`: on Apple with
    /// `-Wl,-force_load`, on other Unixes between `-Wl,--whole-archive` and
    /// `-Wl,--no-whole-archive`, on Windows with `-Wl,-wholearchive:`.
    pub fn link_staticlib(&mut self, lib_file: &str)
        ensures
            final(self)@ == (ClangWrapperView {
                link_args: old(self)@.link_args + match old(self)@.platform {
                    Platform::Apple => seq!["-Wl,-force_load"@, lib_file@],
                    Platform::Windows => seq!["-Wl,-wholearchive:"@ + lib_file@],
                    _ => seq!["-Wl,--whole-archive"@, lib_file@, "-Wl,--no-whole-archive"@],
                },
                ..old(self)@
            }),
    {
        let ghost before = strings_view(self.link_args@);
        match self.platform {
            Platform::Apple => {
                push_str(&mut self.link_args, "-Wl,-force_load");
                push_str(&mut self.link_args, lib_file);
                assert(strings_view(self.link_args@) =~= before + seq!["-Wl,-force_load"@, lib_file@]);
            },
            Platform::Windows => {
                let mut arg = String::from_str("-Wl,-wholearchive:");
                arg.append(lib_file);
                push_str(&mut self.link_args, arg.as_str());
                assert(strings_view(self.link_args@) =~= before + seq![
                    "-Wl,-wholearchive:"@ + lib_file@,
                ]);
            },
            _ => {
                push_str(&mut self.link_args, "-Wl,--whole-archive");
                push_str(&mut self.link_args, lib_file);
                push_str(&mut self.link_args, "-Wl,--no-whole-archive");
                assert(strings_view(self.link_args@) =~= before + seq![
                    "-Wl,--whole-archive"@,
                    lib_file@,
                    "-Wl,--no-whole-archive"@,
                ]);
            },
        }
    }

    /// Sets whether the wrapper is silent.
    pub fn silence(&mut self, value: bool)
        ensures
            final(self)@ == (ClangWrapperView { is_silent: value, ..old(self)@ }),
    {
        self.is_silent = value;
    }

    /// Whether the wrapper is silent.
    pub fn is_silent(&self) -> (b: bool)
        ensures
            b == self@.is_silent,
    {
        self.is_silent
    }

    /// Whether the parsed command line links.
    pub fn is_linking(&self) -> (b: bool)
        ensures
            b == self@.linking,
    {
        self.linking
    }

    /// Whether configurations are to be ignored.
    pub fn ignore_configurations(&self) -> (b: bool)
        ensures
            b == self@.ignoring_configurations,
    {
        self.ignoring_configurations
    }

    /// The configuration names given on the command line, in order.
    pub fn configuration_names(&self) -> (v: Vec<String>)
        ensures
            strings_view(v@) == self@.configuration_names,
    {
        let v = self.configuration_names.clone();
        assert(strings_view(v@) =~= strings_view(self.configuration_names@));
        v
    }
}

/// The blocked arguments that [`ClangWrapper::filter`] removes.
pub open spec fn blocked(a: Seq<char>) -> bool {
    a == "-Werror=unused-command-line-argument"@ || a == "-Wunused-command-line-argument"@ || a
        == "-fconserve-stack"@
}

/// `args` without the blocked arguments, order kept.
pub open spec fn unblocked(args: Seq<Seq<char>>) -> Seq<Seq<char>>
    decreases args.len(),
{
    if args.len() == 0 {
        args
    } else if blocked(args.last()) {
        unblocked(args.drop_last())
    } else {
        unblocked(args.drop_last()).push(args.last())
    }
}

/// Whether `a` is a blocked argument.
fn is_blocked(a: &str) -> (b: bool)
    ensures
        b == blocked(a@),
{
    str_eq(a, "-Werror=unused-command-line-argument") || str_eq(a, "-Wunused-command-line-argument")
        || str_eq(a, "-fconserve-stack")
}

impl ClangWrapper {
    /// Removes the arguments that clang would reject or warn about:
    /// `-Werror=unused-command-line-argument`, `-Wunused-command-line-argument`
    /// and `-fconserve-stack` (a GCC flag).
    pub fn filter(&self, args: &mut Vec<String>)
        ensures
            strings_view(final(args)@) == unblocked(strings_view(old(args)@)),
    {
        let mut kept: Vec<String> = Vec::new();
        let ghost all = strings_view(args@);
        let mut i: usize = 0;
        assert(strings_view(kept@) =~= unblocked(all.take(0)));
        while i < args.len()
            invariant
                0 <= i <= args@.len(),
                all == strings_view(args@),
                strings_view(kept@) == unblocked(all.take(i as int)),
            decreases args@.len() - i,
        {
            assert(all.take(i + 1).drop_last() =~= all.take(i as int));
            assert(all.take(i + 1).last() == args@[i as int]@);
            if !is_blocked(args[i].as_str()) {
                let ghost before = strings_view(kept@);
                kept.push(args[i].clone());
                assert(strings_view(kept@) =~= before.push(args@[i as int]@));
            }
            i = i + 1;
        }
        assert(all.take(all.len() as int) =~= all);
        *args = kept;
    }
}

/// Where the walk over the arguments of a command line stands.
#[verifier::ext_equal]
pub struct ArgWalk {
    /// The index of the next argument.
    pub i: int,
    /// The link-suppression count: 1 for each no-link switch, 1337 for each
    /// switch that asks for the fuzzer runtime.
    pub suppress: int,
    pub has_libafl_arg: bool,
    pub is_asm: bool,
    pub x_set: bool,
    pub bit_mode: u32,
    pub linking: bool,
    pub shared: bool,
    pub ignoring: bool,
    pub output: Option<Seq<char>>,
    pub config_names: Seq<Seq<char>>,
    /// The arguments kept for the compiler.
    pub new_args: Seq<Seq<char>>,
}

/// Whether `a` names an assembly file: its extension is `s` in either case.
pub open spec fn is_asm_source(a: Seq<char>) -> bool {
    match path_extension(a) {
        Some(e) => e == "s"@ || e == "S"@,
        None => false,
    }
}

/// What an argument means to the walk.
#[derive(Debug, Clone, Copy, PartialEq, Eq, Structural)]
pub enum ArgKind {
    /// `--libafl-no-link` or `-fsanitize=fuzzer-no-link`: do not link the
    /// fuzzer runtime.
    NoLinkRuntime,
    /// `--libafl` or `-fsanitize=fuzzer`: link the fuzzer runtime.
    LinkRuntime,
    /// A switch that forbids undefined symbols: dropped.
    NoUndefined,
    /// `-z` or `-Wl,-z`: dropped together with a following `defs`.
    LinkerOption,
    /// `--libafl-ignore-configurations` or `-print-prog-name=ld`.
    IgnoreConfigurations,
    /// `--libafl-configurations`, followed by a comma-separated list.
    Configurations,
    /// `-o`, followed by the output file.
    Output,
    /// `-x`: the language is set.
    Language,
    /// `-m32`.
    Mode32,
    /// `-m64`.
    Mode64,
    /// `-c`, `-S` or `-E`: no linking.
    NoLink,
    /// `-shared`: a shared object, no linking.
    Shared,
    /// Anything else.
    Plain,
}

/// What argument `a` means to the walk.
pub open spec fn arg_kind(a: Seq<char>) -> ArgKind {
    if a == "--libafl-no-link"@ || a == "-fsanitize=fuzzer-no-link"@ {
        ArgKind::NoLinkRuntime
    } else if a == "--libafl"@ || a == "-fsanitize=fuzzer"@ {
        ArgKind::LinkRuntime
    } else if a == "-Wl,-z,defs"@ || a == "-Wl,--no-undefined"@ || a == "--no-undefined"@ {
        ArgKind::NoUndefined
    } else if a == "-z"@ || a == "-Wl,-z"@ {
        ArgKind::LinkerOption
    } else if a == "--libafl-ignore-configurations"@ || a == "-print-prog-name=ld"@ {
        ArgKind::IgnoreConfigurations
    } else if a == "--libafl-configurations"@ {
        ArgKind::Configurations
    } else if a == "-o"@ {
        ArgKind::Output
    } else if a == "-x"@ {
        ArgKind::Language
    } else if a == "-m32"@ {
        ArgKind::Mode32
    } else if a == "-m64"@ {
        ArgKind::Mode64
    } else if a == "-c"@ || a == "-S"@ || a == "-E"@ {
        ArgKind::NoLink
    } else if a == "-shared"@ {
        ArgKind::Shared
    } else {
        ArgKind::Plain
    }
}

/// One step of the walk at argument `w.i`.
pub open spec fn walk_step(args: Seq<Seq<char>>, w0: ArgWalk) -> ArgWalk {
    let a = args[w0.i];
    let has_next = w0.i + 1 < args.len();
    let w = ArgWalk { is_asm: w0.is_asm || is_asm_source(a), ..w0 };
    let keep = ArgWalk { i: w.i + 1, new_args: w.new_args.push(a), ..w };
    match arg_kind(a) {
        ArgKind::NoLinkRuntime => ArgWalk {
            i: w.i + 1,
            suppress: w.suppress + 1,
            has_libafl_arg: true,
            ..w
        },
        ArgKind::LinkRuntime => ArgWalk {
            i: w.i + 1,
            suppress: w.suppress + 1337,
            has_libafl_arg: true,
            ..w
        },
        ArgKind::NoUndefined => ArgWalk { i: w.i + 1, ..w },
        ArgKind::LinkerOption => if has_next && (args[w.i + 1] == "defs"@ || args[w.i + 1]
            == "-Wl,defs"@) {
            ArgWalk { i: w.i + 2, ..w }
        } else {
            keep
        },
        ArgKind::IgnoreConfigurations => ArgWalk { i: w.i + 1, ignoring: true, ..w },
        ArgKind::Configurations => if has_next {
            ArgWalk {
                i: w.i + 2,
                config_names: w.config_names + split_on(args[w.i + 1], ','),
                ..w
            }
        } else {
            keep
        },
        ArgKind::Output => if has_next {
            ArgWalk { i: w.i + 2, output: Some(args[w.i + 1]), ..w }
        } else {
            keep
        },
        ArgKind::Language => ArgWalk { x_set: true, ..keep },
        ArgKind::Mode32 => ArgWalk { bit_mode: 32, ..keep },
        ArgKind::Mode64 => ArgWalk { bit_mode: 64, ..keep },
        ArgKind::NoLink => ArgWalk { linking: false, ..keep },
        ArgKind::Shared => ArgWalk { linking: false, shared: true, ..keep },
        ArgKind::Plain => keep,
    }
}

/// What argument `a` means to the walk.
fn classify(a: &str) -> (k: ArgKind)
    ensures
        k == arg_kind(a@),
{
    if str_eq(a, "--libafl-no-link") || str_eq(a, "-fsanitize=fuzzer-no-link") {
        ArgKind::NoLinkRuntime
    } else if str_eq(a, "--libafl") || str_eq(a, "-fsanitize=fuzzer") {
        ArgKind::LinkRuntime
    } else if str_eq(a, "-Wl,-z,defs") || str_eq(a, "-Wl,--no-undefined") || str_eq(
        a,
        "--no-undefined",
    ) {
        ArgKind::NoUndefined
    } else if str_eq(a, "-z") || str_eq(a, "-Wl,-z") {
        ArgKind::LinkerOption
    } else if str_eq(a, "--libafl-ignore-configurations") || str_eq(a, "-print-prog-name=ld") {
        ArgKind::IgnoreConfigurations
    } else if str_eq(a, "--libafl-configurations") {
        ArgKind::Configurations
    } else if str_eq(a, "-o") {
        ArgKind::Output
    } else if str_eq(a, "-x") {
        ArgKind::Language
    } else if str_eq(a, "-m32") {
        ArgKind::Mode32
    } else if str_eq(a, "-m64") {
        ArgKind::Mode64
    } else if str_eq(a, "-c") || str_eq(a, "-S") || str_eq(a, "-E") {
        ArgKind::NoLink
    } else if str_eq(a, "-shared") {
        ArgKind::Shared
    } else {
        ArgKind::Plain
    }
}

/// The walk from `w` to the end of the arguments.
pub open spec fn walk(args: Seq<Seq<char>>, w: ArgWalk) -> ArgWalk
    decreases args.len() - w.i,
{
    if 0 <= w.i < args.len() {
        walk(args, walk_step(args, w))
    } else {
        w
    }
}

/// The switches that end a parsed command line, after the kept arguments
/// (and the no-link runtime when linking was suppressed): debug info, the
/// optimization flags when optimizing, the fuzzing define, and the
/// platform's libraries for linking.
pub open spec fn tail_args(p: Platform, optimize: bool, linking: bool, shared: bool) -> Seq<Seq<char>> {
    seq!["-g"@] + (if optimize {
        seq!["-O3"@, "-funroll-loops"@]
    } else {
        Seq::<Seq<char>>::empty()
    }) + seq!["-DFUZZING_BUILD_MODE_UNSAFE_FOR_PRODUCTION=1"@] + (if p == Platform::Windows
        && linking {
        seq!["-lws2_32"@, "-lBcrypt"@, "-lAdvapi32"@]
    } else {
        Seq::<Seq<char>>::empty()
    }) + (if p == Platform::Linux && linking {
        seq!["-lrt"@]
    } else {
        Seq::<Seq<char>>::empty()
    }) + (if p == Platform::Apple && (linking || shared) {
        seq!["-undefined"@, "dynamic_lookup"@]
    } else {
        Seq::<Seq<char>>::empty()
    })
}

/// Whether linking is suppressed in favour of the no-link runtime: a
/// linking command line with a no-link switch (or a fuzzer switch that added
/// nothing) and no switch asking for the fuzzer runtime.
pub open spec fn suppresses_linking(w: ArgWalk) -> bool {
    w.linking && (w.suppress > 0 || (w.has_libafl_arg && w.suppress == 0)) && w.suppress < 1337
}

/// The suffix of a wrapper name that selects C++.
pub open spec fn cpp_suffix(p: Platform) -> Seq<char> {
    if p == Platform::Windows {
        "++.exe"@
    } else {
        "++"@
    }
}

/// The walk of a command line `args` (two or more arguments, not the lone
/// `-v` probe) from the wrapper state `v`.
pub open spec fn args_walk(v: ClangWrapperView, args: Seq<Seq<char>>) -> ArgWalk {
    walk(
        args,
        ArgWalk {
            i: 1,
            suppress: 0,
            has_libafl_arg: v.has_libafl_arg,
            is_asm: v.is_asm,
            x_set: v.x_set,
            bit_mode: v.bit_mode,
            linking: !(args[1] == "-v"@),
            shared: false,
            ignoring: v.ignoring_configurations,
            output: v.output,
            config_names: v.configuration_names,
            new_args: Seq::<Seq<char>>::empty(),
        },
    )
}

/// The wrapper state `v` once the walk `w` of its command line is done,
/// with `rt` the no-link runtime library: linking is suppressed or not, and
/// the kept arguments, the runtime when linking was suppressed and the final
/// switches join the base arguments.
pub open spec fn finished(v: ClangWrapperView, w: ArgWalk, rt: Seq<char>) -> ClangWrapperView {
    let sup = suppresses_linking(w);
    let linking = w.linking && !sup;
    ClangWrapperView {
        is_asm: w.is_asm,
        x_set: w.x_set,
        bit_mode: w.bit_mode,
        has_libafl_arg: w.has_libafl_arg,
        ignoring_configurations: w.ignoring,
        output: w.output,
        configuration_names: w.config_names,
        linking,
        shared: w.shared,
        base_args: v.base_args + w.new_args + (if sup {
            seq![rt]
        } else {
            Seq::<Seq<char>>::empty()
        }) + tail_args(v.platform, v.optimize, linking, w.shared),
        ..v
    }
}

/// The wrapper state after parsing the command line `args` (two or more
/// arguments, not the lone `-v` probe) from state `v`, with `rt` the
/// no-link runtime library.
pub open spec fn parsed(v: ClangWrapperView, args: Seq<Seq<char>>, rt: Seq<char>) -> ClangWrapperView {
    finished(
        ClangWrapperView {
            name: args[0],
            is_cpp: v.is_cpp || has_suffix(args[0], cpp_suffix(v.platform)),
            parse_args_called: true,
            ..v
        },
        args_walk(v, args),
        rt,
    )
}

/// The walk, as the parser holds it.
struct WalkState {
    i: usize,
    suppress: i64,
    has_libafl_arg: bool,
    is_asm: bool,
    x_set: bool,
    bit_mode: u32,
    linking: bool,
    shared: bool,
    ignoring: bool,
    output: Option<String>,
    config_names: Vec<String>,
    new_args: Vec<String>,
}

impl View for WalkState {
    type V = ArgWalk;

    closed spec fn view(&self) -> ArgWalk {
        ArgWalk {
            i: self.i as int,
            suppress: self.suppress as int,
            has_libafl_arg: self.has_libafl_arg,
            is_asm: self.is_asm,
            x_set: self.x_set,
            bit_mode: self.bit_mode,
            linking: self.linking,
            shared: self.shared,
            ignoring: self.ignoring,
            output: opt_view(self.output),
            config_names: strings_view(self.config_names@),
            new_args: strings_view(self.new_args@),
        }
    }
}

/// Whether argument `a` names an assembly file.
fn check_asm(a: &str) -> (b: bool)
    ensures
        b == is_asm_source(a@),
{
    match extension_of(a) {
        Some(e) => str_eq(e.as_str(), "s") || str_eq(e.as_str(), "S"),
        None => false,
    }
}

/// Keeps the argument at the walk's position and moves past it.
fn keep_arg(args: &Vec<String>, st: &mut WalkState)
    requires
        old(st).i < args.len(),
    ensures
        final(st)@ == (ArgWalk {
            i: old(st)@.i + 1,
            new_args: old(st)@.new_args.push(args@[old(st).i as int]@),
            ..old(st)@
        }),
{
    push_str(&mut st.new_args, args[st.i].as_str());
    st.i = st.i + 1;
}

/// One step of the walk, as [`walk_step`] states it.
#[verifier::rlimit(60)]
fn step_arg(args: &Vec<String>, st: &mut WalkState)
    requires
        1 <= old(st).i < args@.len(),
        args@.len() <= u32::MAX,
        0 <= old(st).suppress <= 1337 * old(st).i,
    ensures
        final(st)@ == walk_step(strings_view(args@), old(st)@),
        old(st).i < final(st).i <= old(st).i + 2,
        0 <= final(st).suppress <= 1337 * final(st).i,
{
    let ghost av = strings_view(args@);
    let i = st.i;
    let a = args[i].as_str();
    assert(a@ == av[i as int]);
    let has_next = i + 1 < args.len();
    proof {
        if has_next {
            assert(args@[i + 1]@ == av[i + 1]);
        }
    }
    if check_asm(a) {
        st.is_asm = true;
    }
    match classify(a) {
        ArgKind::NoLinkRuntime => {
            st.suppress = st.suppress + 1;
            st.has_libafl_arg = true;
            st.i = i + 1;
        },
        ArgKind::LinkRuntime => {
            st.suppress = st.suppress + 1337;
            st.has_libafl_arg = true;
            st.i = i + 1;
        },
        ArgKind::NoUndefined => {
            st.i = i + 1;
        },
        ArgKind::LinkerOption => {
            if has_next && (str_eq(args[i + 1].as_str(), "defs") || str_eq(
                args[i + 1].as_str(),
                "-Wl,defs",
            )) {
                st.i = i + 2;
            } else {
                keep_arg(args, st);
            }
        },
        ArgKind::IgnoreConfigurations => {
            st.ignoring = true;
            st.i = i + 1;
        },
        ArgKind::Configurations => {
            if has_next {
                let mut names = split_commas(args[i + 1].as_str());
                let ghost before = strings_view(st.config_names@);
                let ghost added = strings_view(names@);
                st.config_names.append(&mut names);
                assert(strings_view(st.config_names@) =~= before + added);
                st.i = i + 2;
            } else {
                keep_arg(args, st);
            }
        },
        ArgKind::Output => {
            if has_next {
                st.output = Some(args[i + 1].clone());
                st.i = i + 2;
            } else {
                keep_arg(args, st);
            }
        },
        ArgKind::Language => {
            st.x_set = true;
            keep_arg(args, st);
        },
        ArgKind::Mode32 => {
            st.bit_mode = 32;
            keep_arg(args, st);
        },
        ArgKind::Mode64 => {
            st.bit_mode = 64;
            keep_arg(args, st);
        },
        ArgKind::NoLink => {
            st.linking = false;
            keep_arg(args, st);
        },
        ArgKind::Shared => {
            st.linking = false;
            st.shared = true;
            keep_arg(args, st);
        },
        ArgKind::Plain => {
            keep_arg(args, st);
        },
    }
    assert(st@ =~= walk_step(av, old(st)@));
}

/// A walk whose position is past the arguments is finished.
proof fn lemma_walk_done(args: Seq<Seq<char>>, w: ArgWalk)
    requires
        w.i >= args.len(),
    ensures
        walk(args, w) == w,
{
}

impl ClangWrapper {
    /// Parses a compiler command line: `args[0]` is the wrapper's own name
    /// (a name ending in `++` selects C++), the rest are compiler arguments.
    /// `no_link_rt` is the path of the runtime to link instead when linking
    /// is suppressed.
    ///
    /// Fails on an empty command line, on a second call, and on a command
    /// line without arguments. A lone `-v` is kept as it is. Otherwise the
    /// arguments are walked (see [`walk_step`]): the wrapper's own switches
    /// are consumed, `-o` and `--libafl-configurations` take the next
    /// argument, the rest is kept; then linking is suppressed or not and the
    /// final switches are added (see [`parsed`]).
    #[verifier::rlimit(60)]
    pub fn parse_args(&mut self, args: &Vec<String>, no_link_rt: &str) -> (r: Result<(), WrapperError>)
        requires
            args@.len() <= u32::MAX,
        ensures
            ({
                let av = strings_view(args@);
                let o = old(self)@;
                &&& av.len() == 0 ==> (final(self)@ == o && (r matches Err(
                    WrapperError::InvalidArguments(m),
                ) && m@ == "The number of arguments cannot be 0"@))
                &&& (av.len() > 0 && o.parse_args_called) ==> (final(self)@ == o && (r matches Err(
                    WrapperError::Unknown(m),
                ) && m@ == "ToolWrapper::parse_args cannot be called twice on the same instance"@))
                &&& (av.len() == 1 && !o.parse_args_called) ==> (final(self)@ == (
                ClangWrapperView { parse_args_called: true, ..o }) && (r matches Err(
                    WrapperError::InvalidArguments(m),
                ) && m@ == "LibAFL Tool wrapper - no commands specified. Use me as compiler."@))
                &&& (av.len() == 2 && av[1] == "-v"@ && !o.parse_args_called) ==> (r is Ok
                    && final(self)@ == (ClangWrapperView {
                    name: av[0],
                    is_cpp: o.is_cpp || has_suffix(av[0], cpp_suffix(o.platform)),
                    parse_args_called: true,
                    base_args: o.base_args.push(av[1]),
                    ..o
                }))
                &&& (av.len() >= 2 && !(av.len() == 2 && av[1] == "-v"@) && !o.parse_args_called)
                    ==> (r is Ok && final(self)@ == parsed(o, av, no_link_rt@))
            }),
    {
        let ghost av = strings_view(args@);
        if args.len() == 0 {
            return Err(WrapperError::InvalidArguments(String::from_str("The number of arguments cannot be 0")));
        }
        if self.parse_args_called {
            return Err(
                WrapperError::Unknown(
                    String::from_str("ToolWrapper::parse_args cannot be called twice on the same instance"),
                ),
            );
        }
        self.parse_args_called = true;
        if args.len() == 1 {
            return Err(
                WrapperError::InvalidArguments(
                    String::from_str("LibAFL Tool wrapper - no commands specified. Use me as compiler."),
                ),
            );
        }
        assert(av[0] == args@[0]@ && av[1] == args@[1]@);
        self.name = args[0].clone();
        let suffix = if matches!(self.platform, Platform::Windows) {
            "++.exe"
        } else {
            "++"
        };
        self.is_cpp = self.is_cpp || ends_with(self.name.as_str(), suffix);
        let mut linking = true;
        if str_eq(args[1].as_str(), "-v") {
            if args.len() == 2 {
                push_str(&mut self.base_args, args[1].as_str());
                return Ok(());
            }
            linking = false;
        }
        let mut config_names: Vec<String> = Vec::new();
        std::mem::swap(&mut config_names, &mut self.configuration_names);
        let mut output: Option<String> = None;
        std::mem::swap(&mut output, &mut self.output);
        let st = WalkState {
            i: 1,
            suppress: 0,
            has_libafl_arg: self.has_libafl_arg,
            is_asm: self.is_asm,
            x_set: self.x_set,
            bit_mode: self.bit_mode,
            linking,
            shared: false,
            ignoring: self.ignoring_configurations,
            output,
            config_names,
            new_args: Vec::new(),
        };
        assert(strings_view(st.new_args@) =~= Seq::<Seq<char>>::empty());
        assert(st@ == (ArgWalk {
            i: 1,
            suppress: 0,
            has_libafl_arg: old(self)@.has_libafl_arg,
            is_asm: old(self)@.is_asm,
            x_set: old(self)@.x_set,
            bit_mode: old(self)@.bit_mode,
            linking: !(av[1] == "-v"@),
            shared: false,
            ignoring: old(self)@.ignoring_configurations,
            output: old(self)@.output,
            config_names: old(self)@.configuration_names,
            new_args: Seq::<Seq<char>>::empty(),
        }));
        let done = run_walk(args, st);
        let ghost mid = self@;
        self.apply_walk(done, no_link_rt);
        proof {
            assert(mid =~= (ClangWrapperView {
                name: av[0],
                is_cpp: old(self)@.is_cpp || has_suffix(av[0], cpp_suffix(old(self)@.platform)),
                parse_args_called: true,
                configuration_names: Seq::<Seq<char>>::empty(),
                output: None,
                ..old(self)@
            }));
            assert(self@ =~= parsed(old(self)@, av, no_link_rt@));
        }
        Ok(())
    }

    /// Applies a finished walk to the wrapper (see [`finished`]).
    fn apply_walk(&mut self, st: WalkState, no_link_rt: &str)
        ensures
            final(self)@ == finished(old(self)@, st@, no_link_rt@),
    {
        let ghost w = st@;
        let sup = st.linking && (st.suppress > 0 || (st.has_libafl_arg && st.suppress == 0))
            && st.suppress < 1337;
        let mut new_args = st.new_args;
        if sup {
            push_str(&mut new_args, no_link_rt);
        }
        let linking = st.linking && !sup;
        self.linking = linking;
        self.shared = st.shared;
        self.has_libafl_arg = st.has_libafl_arg;
        self.is_asm = st.is_asm;
        self.x_set = st.x_set;
        self.bit_mode = st.bit_mode;
        self.ignoring_configurations = st.ignoring;
        self.output = st.output;
        self.configuration_names = st.config_names;
        let ghost kept = strings_view(new_args@);
        let mut tail = tail_switches(self.platform, self.optimize, linking, self.shared);
        let ghost before = strings_view(self.base_args@);
        new_args.append(&mut tail);
        let ghost added = strings_view(new_args@);
        assert(added =~= kept + tail_args(self.platform, self.optimize, linking, w.shared));
        self.base_args.append(&mut new_args);
        assert(strings_view(self.base_args@) =~= before + added);
        assert(self@ =~= finished(old(self)@, w, no_link_rt@));
    }
}

/// Runs the walk from `st` to the end of the arguments.
fn run_walk(args: &Vec<String>, st: WalkState) -> (r: WalkState)
    requires
        args@.len() <= u32::MAX,
        1 <= st.i,
        0 <= st.suppress <= 1337 * st.i,
    ensures
        r@ == walk(strings_view(args@), st@),
{
    let ghost av = strings_view(args@);
    let ghost start = st@;
    let mut st = st;
    while st.i < args.len()
        invariant
            av == strings_view(args@),
            av.len() <= u32::MAX,
            1 <= st.i,
            0 <= st.suppress <= 1337 * st.i,
            walk(av, st@) == walk(av, start),
        decreases av.len() - st.i,
    {
        let ghost before = st@;
        step_arg(args, &mut st);
        assert(walk(av, before) == walk(av, st@));
    }
    proof {
        lemma_walk_done(av, st@);
    }
    st
}

/// The switches of [`tail_args`].
fn tail_switches(p: Platform, optimize: bool, linking: bool, shared: bool) -> (v: Vec<String>)
    ensures
        strings_view(v@) == tail_args(p, optimize, linking, shared),
{
    let mut v: Vec<String> = Vec::new();
    push_str(&mut v, "-g");
    if optimize {
        push_str(&mut v, "-O3");
        push_str(&mut v, "-funroll-loops");
    }
    push_str(&mut v, "-DFUZZING_BUILD_MODE_UNSAFE_FOR_PRODUCTION=1");
    match p {
        Platform::Windows => {
            if linking {
                push_str(&mut v, "-lws2_32");
                push_str(&mut v, "-lBcrypt");
                push_str(&mut v, "-lAdvapi32");
            }
        },
        Platform::Linux => {
            if linking {
                push_str(&mut v, "-lrt");
            }
        },
        Platform::Apple => {
            if linking || shared {
                push_str(&mut v, "-undefined");
                push_str(&mut v, "dynamic_lookup");
            }
        },
        Platform::OtherUnix => {},
    }
    assert(strings_view(v@) =~= tail_args(p, optimize, linking, shared));
    v
}

/// A part of a planned compiler command.
#[derive(Debug, Clone, PartialEq, Eq)]
pub enum CommandPart {
    /// The argument as it is.
    Arg(String),
    /// The path with the configuration's tag inserted in its file name (what
    /// `Configuration::replace_extension` makes of it).
    Tagged(String),
    /// The tagged path (as [`CommandPart::Tagged`]) with its extension set
    /// to `o`.
    TaggedObject(String),
    /// The configuration's compiler flags, in order.
    ConfigurationFlags,
    /// The path of the plugin of the named pass.
    PassPath(String),
    /// `-fpass-plugin=` followed by the path of the plugin of the named pass.
    PassPlugin(String),
}

/// The abstract value of a [`CommandPart`].
pub enum PartView {
    Arg(Seq<char>),
    Tagged(Seq<char>),
    TaggedObject(Seq<char>),
    ConfigurationFlags,
    PassPath(Seq<char>),
    PassPlugin(Seq<char>),
}

impl View for CommandPart {
    type V = PartView;

    open spec fn view(&self) -> PartView {
        match self {
            CommandPart::Arg(s) => PartView::Arg(s@),
            CommandPart::Tagged(s) => PartView::Tagged(s@),
            CommandPart::TaggedObject(s) => PartView::TaggedObject(s@),
            CommandPart::ConfigurationFlags => PartView::ConfigurationFlags,
            CommandPart::PassPath(s) => PartView::PassPath(s@),
            CommandPart::PassPlugin(s) => PartView::PassPlugin(s@),
        }
    }
}

/// The views of the parts of a plan.
pub open spec fn parts_view(v: Seq<CommandPart>) -> Seq<PartView> {
    Seq::new(v.len(), |i: int| v[i]@)
}

/// The lowercase extension of `a` read as a path, when it has one.
pub open spec fn lower_ext(a: Seq<char>) -> Option<Seq<char>> {
    match path_extension(a) {
        Some(e) => Some(lowercase(e)),
        None => None,
    }
}

/// Whether `a` names an archive, a libtool archive or a precompiled header
/// (whose names carry the configuration's tag). An argument ending in a dot
/// is taken as it is.
pub open spec fn is_tagged_input(a: Seq<char>) -> bool {
    !has_suffix(a, "."@) && match lower_ext(a) {
        Some(e) => e == "a"@ || e == "la"@ || e == "pch"@,
        None => false,
    }
}

/// Whether `a` names a C or C++ source file: not ending in a dot, not a
/// switch, with the extension `c`, `cc`, `cxx` or `cpp` in any case.
pub open spec fn is_source(a: Seq<char>) -> bool {
    !has_suffix(a, "."@) && !(a.len() > 0 && a[0] == '-') && match lower_ext(a) {
        Some(e) => e == "c"@ || e == "cc"@ || e == "cxx"@ || e == "cpp"@,
        None => false,
    }
}

/// The part of a base argument.
pub open spec fn base_part(a: Seq<char>) -> PartView {
    if is_tagged_input(a) {
        PartView::Tagged(a)
    } else {
        PartView::Arg(a)
    }
}

/// The parts of the base arguments.
pub open spec fn base_parts(base: Seq<Seq<char>>) -> Seq<PartView> {
    Seq::new(base.len(), |j: int| base_part(base[j]))
}

/// The arguments as they are.
pub open spec fn arg_parts(args: Seq<Seq<char>>) -> Seq<PartView> {
    Seq::new(args.len(), |j: int| PartView::Arg(args[j]))
}

/// The index of the first source file among `base[from..]`.
pub open spec fn first_source_from(base: Seq<Seq<char>>, from: int) -> Option<int>
    decreases base.len() - from,
{
    if from < 0 || from >= base.len() {
        None
    } else if is_source(base[from]) {
        Some(from)
    } else {
        first_source_from(base, from + 1)
    }
}

/// The `-o` parts: the tagged output when one was given; otherwise, for a
/// configuration other than the default, an output named after the first
/// source file (the tagged `a.out` when linking, else the source's tagged
/// object file); nothing when there is neither.
pub open spec fn output_parts(v: ClangWrapperView, is_default: bool) -> Seq<PartView> {
    match v.output {
        Some(o) => seq![PartView::Arg("-o"@), PartView::Tagged(o)],
        None => if is_default {
            Seq::<PartView>::empty()
        } else {
            match first_source_from(v.base_args, 0) {
                Some(j) => seq![
                    PartView::Arg("-o"@),
                    if v.linking {
                        PartView::Tagged("a.out"@)
                    } else {
                        PartView::TaggedObject(v.base_args[j])
                    },
                ],
                None => Seq::<PartView>::empty(),
            }
        },
    }
}

/// The parts that load each pass: `-Xclang -load -Xclang <path>` and
/// `-Xclang -fpass-plugin=<path>`.
pub open spec fn pass_parts(names: Seq<Seq<char>>) -> Seq<PartView>
    decreases names.len(),
{
    if names.len() == 0 {
        Seq::<PartView>::empty()
    } else {
        let n = names.last();
        pass_parts(names.drop_last()) + seq![
            PartView::Arg("-Xclang"@),
            PartView::Arg("-load"@),
            PartView::Arg("-Xclang"@),
            PartView::PassPath(n),
            PartView::Arg("-Xclang"@),
            PartView::PassPlugin(n),
        ]
    }
}

/// The parts that hand each argument to the passes: `-mllvm <arg>`.
pub open spec fn mllvm_parts(args: Seq<Seq<char>>) -> Seq<PartView>
    decreases args.len(),
{
    if args.len() == 0 {
        Seq::<PartView>::empty()
    } else {
        mllvm_parts(args.drop_last()) + seq![PartView::Arg("-mllvm"@), PartView::Arg(args.last())]
    }
}

/// The compiler of the wrapper: the C++ one in C++ mode.
pub open spec fn compiler(v: ClangWrapperView) -> Seq<char> {
    if v.is_cpp {
        v.wrapped_cxx
    } else {
        v.wrapped_cc
    }
}

/// The planned command for a configuration (`is_default` when it is the
/// default one): the compiler, the output, the base arguments, the
/// configuration's flags; then the passes and their arguments (not for
/// assembly), and either the
/// link arguments (with `-x none` after a language switch, the passes' link
/// arguments when passes are loaded, and the threading, loader and math
/// libraries on Unix) or the compile-only arguments.
pub open spec fn command_plan(v: ClangWrapperView, is_default: bool) -> Seq<PartView> {
    let head = seq![PartView::Arg(compiler(v))] + output_parts(v, is_default) + base_parts(
        v.base_args,
    ) + seq![PartView::ConfigurationFlags];
    head + pass_parts(v.passes) + (if !v.is_asm && v.passes.len() > 0 {
        mllvm_parts(v.passes_args)
    } else {
        Seq::<PartView>::empty()
    }) + final_parts(v)
}

/// The parts that end a command: when linking, `-x none` after a language
/// switch, the link arguments, the passes' link arguments when passes are
/// loaded, and the threading, loader and math libraries on Unix; otherwise
/// the compile-only arguments.
pub open spec fn final_parts(v: ClangWrapperView) -> Seq<PartView> {
    if v.linking {
        (if v.x_set {
            seq![PartView::Arg("-x"@), PartView::Arg("none"@)]
        } else {
            Seq::<PartView>::empty()
        }) + arg_parts(v.link_args) + (if v.passes.len() > 0 {
            arg_parts(v.passes_linking_args)
        } else {
            Seq::<PartView>::empty()
        }) + (if is_unix(v.platform) {
            seq![PartView::Arg("-pthread"@), PartView::Arg("-ldl"@), PartView::Arg("-lm"@)]
        } else {
            Seq::<PartView>::empty()
        })
    } else {
        arg_parts(v.cc_args)
    }
}

/// The parts that open every planned command: the compiler, the output, the
/// base arguments and the configuration's flags.
pub open spec fn head_parts(v: ClangWrapperView, is_default: bool) -> Seq<PartView> {
    seq![PartView::Arg(compiler(v))] + output_parts(v, is_default) + base_parts(v.base_args)
        + seq![PartView::ConfigurationFlags]
}

/// Whether `a` takes the next argument as its operand when it stands in a
/// command line: `-o`, `--libafl-configurations`, `-z` and `-Wl,-z`.
pub open spec fn takes_operand(a: Seq<char>) -> bool {
    a == "-o"@ || a == "--libafl-configurations"@ || a == "-z"@ || a == "-Wl,-z"@
}

/// Once linking is off, the rest of a command line never turns it back on.
proof fn lemma_walk_keeps_linking_off(args: Seq<Seq<char>>, w: ArgWalk)
    requires
        !w.linking,
    ensures
        !walk(args, w).linking,
    decreases args.len() - w.i,
{
    if 0 <= w.i < args.len() {
        lemma_walk_keeps_linking_off(args, walk_step(args, w));
    }
}

/// `-c`, `-S` and `-E` are the no-link switches.
proof fn lemma_no_link_kind()
    ensures
        arg_kind("-c"@) == ArgKind::NoLink,
        arg_kind("-S"@) == ArgKind::NoLink,
        arg_kind("-E"@) == ArgKind::NoLink,
{
    reveal_strlit("--libafl-no-link");
    reveal_strlit("-fsanitize=fuzzer-no-link");
    reveal_strlit("--libafl");
    reveal_strlit("-fsanitize=fuzzer");
    reveal_strlit("-Wl,-z,defs");
    reveal_strlit("-Wl,--no-undefined");
    reveal_strlit("--no-undefined");
    reveal_strlit("-z");
    reveal_strlit("-Wl,-z");
    reveal_strlit("--libafl-ignore-configurations");
    reveal_strlit("-print-prog-name=ld");
    reveal_strlit("--libafl-configurations");
    reveal_strlit("-o");
    reveal_strlit("-x");
    reveal_strlit("-m32");
    reveal_strlit("-m64");
    reveal_strlit("-c");
    reveal_strlit("-S");
    reveal_strlit("-E");
    assert("-c"@[1] != "-z"@[1]);
    assert("-c"@[1] != "-o"@[1]);
    assert("-c"@[1] != "-x"@[1]);
    assert("-S"@[1] != "-z"@[1]);
    assert("-S"@[1] != "-o"@[1]);
    assert("-S"@[1] != "-x"@[1]);
    assert("-E"@[1] != "-z"@[1]);
    assert("-E"@[1] != "-o"@[1]);
    assert("-E"@[1] != "-x"@[1]);
}

/// A `-c`, `-S` or `-E` at position `j`, with no switch before it (from the
/// walk's position on) that takes an operand, is reached by the walk and
/// turns linking off for good.
proof fn lemma_walk_reaches_no_link(args: Seq<Seq<char>>, w: ArgWalk, j: int)
    requires
        0 <= w.i <= j < args.len(),
        args[j] == "-c"@ || args[j] == "-S"@ || args[j] == "-E"@,
        forall|k: int| w.i <= k < j ==> !takes_operand(#[trigger] args[k]),
    ensures
        !walk(args, w).linking,
    decreases j - w.i,
{
    let next = walk_step(args, w);
    if w.i == j {
        lemma_no_link_kind();
        assert(arg_kind(args[j]) == ArgKind::NoLink);
        assert(!next.linking);
        lemma_walk_keeps_linking_off(args, next);
    } else {
        assert(!takes_operand(args[w.i]));
        assert(next.i == w.i + 1);
        lemma_walk_reaches_no_link(args, next, j);
    }
}

/// `-c`, `-S` and `-E` all ask for no linking, and alike: a command line with
/// any of them (where no earlier switch takes it as its operand) parses to a
/// wrapper that does not link, whatever else the line holds. No platform
/// link library closes its base arguments (they end with the fuzzing
/// define, but for a shared object on Apple), and its planned command ends
/// with the compile-only arguments.
pub proof fn law_compile_only_switches_do_not_link(
    v: ClangWrapperView,
    args: Seq<Seq<char>>,
    rt: Seq<char>,
    j: int,
    is_default: bool,
)
    requires
        args.len() >= 2,
        !(args.len() == 2 && args[1] == "-v"@),
        1 <= j < args.len(),
        args[j] == "-c"@ || args[j] == "-S"@ || args[j] == "-E"@,
        forall|k: int| 1 <= k < j ==> !takes_operand(#[trigger] args[k]),
    ensures
        !parsed(v, args, rt).linking,
        v.platform != Platform::Apple || !parsed(v, args, rt).shared ==> parsed(v, args, rt).base_args.last()
            == "-DFUZZING_BUILD_MODE_UNSAFE_FOR_PRODUCTION=1"@,
        exists|pre: Seq<PartView>|
            command_plan(parsed(v, args, rt), is_default) == pre + arg_parts(parsed(v, args, rt).cc_args),
{
    let w = args_walk(v, args);
    lemma_walk_reaches_no_link(
        args,
        ArgWalk {
            i: 1,
            suppress: 0,
            has_libafl_arg: v.has_libafl_arg,
            is_asm: v.is_asm,
            x_set: v.x_set,
            bit_mode: v.bit_mode,
            linking: !(args[1] == "-v"@),
            shared: false,
            ignoring: v.ignoring_configurations,
            output: v.output,
            config_names: v.configuration_names,
            new_args: Seq::<Seq<char>>::empty(),
        },
        j,
    );
    assert(!w.linking);
    assert(!suppresses_linking(w));
    let p = parsed(v, args, rt);
    let t = tail_args(v.platform, v.optimize, false, w.shared);
    assert(p.base_args == v.base_args + w.new_args + Seq::<Seq<char>>::empty() + t);
    if v.platform != Platform::Apple || !w.shared {
        assert(t.last() == "-DFUZZING_BUILD_MODE_UNSAFE_FOR_PRODUCTION=1"@);
    }
    let pre = head_parts(p, is_default) + pass_parts(p.passes) + (if !p.is_asm && p.passes.len() > 0 {
        mllvm_parts(p.passes_args)
    } else {
        Seq::<PartView>::empty()
    });
    assert(command_plan(p, is_default) =~= pre + arg_parts(p.cc_args));
}

/// How a command ends when no passes are loaded, on Unix: after the opening
/// parts come, when linking, `-x none` after a language switch, the link
/// arguments and the threading, loader and math libraries, and nothing of
/// the compile-only arguments; otherwise the compile-only arguments alone.
pub proof fn law_command_without_passes(v: ClangWrapperView, is_default: bool)
    requires
        v.passes.len() == 0,
        is_unix(v.platform),
    ensures
        ({
            let plan = command_plan(v, is_default);
            let head = head_parts(v, is_default);
            &&& head.len() <= plan.len()
            &&& plan.subrange(0, head.len() as int) == head
            &&& v.linking ==> plan.subrange(head.len() as int, plan.len() as int) == (if v.x_set {
                seq![PartView::Arg("-x"@), PartView::Arg("none"@)]
            } else {
                Seq::<PartView>::empty()
            }) + arg_parts(v.link_args) + seq![
                PartView::Arg("-pthread"@),
                PartView::Arg("-ldl"@),
                PartView::Arg("-lm"@),
            ]
            &&& !v.linking ==> plan.subrange(head.len() as int, plan.len() as int) == arg_parts(
                v.cc_args,
            )
        }),
{
    let plan = command_plan(v, is_default);
    let head = head_parts(v, is_default);
    assert(pass_parts(v.passes) =~= Seq::<PartView>::empty());
    assert(plan =~= head + final_parts(v));
    assert(plan.subrange(0, head.len() as int) =~= head);
    assert(plan.subrange(head.len() as int, plan.len() as int) =~= final_parts(v));
    if v.linking {
        assert(final_parts(v) =~= (if v.x_set {
            seq![PartView::Arg("-x"@), PartView::Arg("none"@)]
        } else {
            Seq::<PartView>::empty()
        }) + arg_parts(v.link_args) + seq![
            PartView::Arg("-pthread"@),
            PartView::Arg("-ldl"@),
            PartView::Arg("-lm"@),
        ]);
    }
}

/// Appends a part.
fn push_part(plan: &mut Vec<CommandPart>, p: CommandPart)
    ensures
        parts_view(final(plan)@) == parts_view(old(plan)@).push(p@),
{
    plan.push(p);
    assert(parts_view(plan@) =~= parts_view(old(plan)@).push(p@));
}

/// Appends a literal argument.
fn push_arg(plan: &mut Vec<CommandPart>, a: &str)
    ensures
        parts_view(final(plan)@) == parts_view(old(plan)@).push(PartView::Arg(a@)),
{
    push_part(plan, CommandPart::Arg(String::from_str(a)));
}

/// Appends the arguments as they are.
fn push_args(plan: &mut Vec<CommandPart>, args: &Vec<String>)
    ensures
        parts_view(final(plan)@) == parts_view(old(plan)@) + arg_parts(strings_view(args@)),
{
    let ghost start = parts_view(plan@);
    let ghost av = strings_view(args@);
    let mut i: usize = 0;
    assert(arg_parts(av.take(0)) =~= Seq::<PartView>::empty());
    assert(start + arg_parts(av.take(0)) =~= start);
    while i < args.len()
        invariant
            0 <= i <= args@.len(),
            av == strings_view(args@),
            parts_view(plan@) == start + arg_parts(av.take(i as int)),
        decreases args@.len() - i,
    {
        push_arg(plan, args[i].as_str());
        assert(arg_parts(av.take(i + 1)) =~= arg_parts(av.take(i as int)).push(PartView::Arg(av[i as int])));
        i = i + 1;
    }
    assert(av.take(av.len() as int) =~= av);
}

/// The lowercase extension of `a`, when it has one.
fn lower_extension(a: &str) -> (e: Option<String>)
    ensures
        e matches Some(x) ==> lower_ext(a@) == Some(x@),
        e is None ==> lower_ext(a@) is None,
{
    match extension_of(a) {
        Some(x) => Some(to_lowercase(x.as_str())),
        None => None,
    }
}

/// Whether `a` is an archive or precompiled header, see [`is_tagged_input`].
fn check_tagged_input(a: &str) -> (b: bool)
    ensures
        b == is_tagged_input(a@),
{
    if ends_with(a, ".") {
        return false;
    }
    match lower_extension(a) {
        Some(e) => str_eq(e.as_str(), "a") || str_eq(e.as_str(), "la") || str_eq(e.as_str(), "pch"),
        None => false,
    }
}

/// Whether `a` is a source file, see [`is_source`].
fn check_source(a: &str) -> (b: bool)
    ensures
        b == is_source(a@),
{
    if ends_with(a, ".") || starts_with_char(a, '-') {
        return false;
    }
    match lower_extension(a) {
        Some(e) => str_eq(e.as_str(), "c") || str_eq(e.as_str(), "cc") || str_eq(e.as_str(), "cxx")
            || str_eq(e.as_str(), "cpp"),
        None => false,
    }
}

/// The index of the first source file among the base arguments.
fn find_source(base: &Vec<String>) -> (r: Option<usize>)
    ensures
        r matches Some(j) ==> j < base@.len(),
        match r {
            Some(j) => first_source_from(strings_view(base@), 0) == Some(j as int),
            None => first_source_from(strings_view(base@), 0) is None,
        },
{
    let ghost bv = strings_view(base@);
    let mut j: usize = 0;
    while j < base.len()
        invariant
            0 <= j <= base@.len(),
            bv == strings_view(base@),
            first_source_from(bv, 0) == first_source_from(bv, j as int),
        decreases base@.len() - j,
    {
        assert(bv[j as int] == base@[j as int]@);
        if check_source(base[j].as_str()) {
            return Some(j);
        }
        j = j + 1;
    }
    None
}

/// Appends the parts of the base arguments.
fn push_base(plan: &mut Vec<CommandPart>, base: &Vec<String>)
    ensures
        parts_view(final(plan)@) == parts_view(old(plan)@) + base_parts(strings_view(base@)),
{
    let ghost start = parts_view(plan@);
    let ghost bv = strings_view(base@);
    let mut i: usize = 0;
    assert(base_parts(bv.take(0)) =~= Seq::<PartView>::empty());
    assert(start + base_parts(bv.take(0)) =~= start);
    while i < base.len()
        invariant
            0 <= i <= base@.len(),
            bv == strings_view(base@),
            parts_view(plan@) == start + base_parts(bv.take(i as int)),
        decreases base@.len() - i,
    {
        let a = base[i].as_str();
        assert(a@ == bv[i as int]);
        if check_tagged_input(a) {
            push_part(plan, CommandPart::Tagged(String::from_str(a)));
        } else {
            push_part(plan, CommandPart::Arg(String::from_str(a)));
        }
        assert(base_parts(bv.take(i + 1)) =~= base_parts(bv.take(i as int)).push(base_part(bv[i as int])));
        i = i + 1;
    }
    assert(bv.take(bv.len() as int) =~= bv);
}

/// Appends the parts that load the passes.
fn push_passes(plan: &mut Vec<CommandPart>, passes: &Vec<LLVMPass>)
    ensures
        parts_view(final(plan)@) == parts_view(old(plan)@) + pass_parts(pass_names(passes@)),
{
    let ghost start = parts_view(plan@);
    let ghost names = pass_names(passes@);
    let mut i: usize = 0;
    assert(names.take(0) =~= Seq::<Seq<char>>::empty());
    assert(start + pass_parts(names.take(0)) =~= start);
    while i < passes.len()
        invariant
            0 <= i <= passes@.len(),
            names == pass_names(passes@),
            parts_view(plan@) == start + pass_parts(names.take(i as int)),
        decreases passes@.len() - i,
    {
        let n = passes[i].name();
        assert(n@ == names[i as int]);
        push_arg(plan, "-Xclang");
        push_arg(plan, "-load");
        push_arg(plan, "-Xclang");
        push_part(plan, CommandPart::PassPath(String::from_str(n)));
        push_arg(plan, "-Xclang");
        push_part(plan, CommandPart::PassPlugin(String::from_str(n)));
        assert(names.take(i + 1).drop_last() =~= names.take(i as int));
        assert(parts_view(plan@) =~= start + pass_parts(names.take(i + 1)));
        i = i + 1;
    }
    assert(names.take(names.len() as int) =~= names);
}

/// Appends `-mllvm <arg>` for each pass argument.
fn push_mllvm(plan: &mut Vec<CommandPart>, args: &Vec<String>)
    ensures
        parts_view(final(plan)@) == parts_view(old(plan)@) + mllvm_parts(strings_view(args@)),
{
    let ghost start = parts_view(plan@);
    let ghost av = strings_view(args@);
    let mut i: usize = 0;
    assert(av.take(0) =~= Seq::<Seq<char>>::empty());
    assert(start + mllvm_parts(av.take(0)) =~= start);
    while i < args.len()
        invariant
            0 <= i <= args@.len(),
            av == strings_view(args@),
            parts_view(plan@) == start + mllvm_parts(av.take(i as int)),
        decreases args@.len() - i,
    {
        assert(args@[i as int]@ == av[i as int]);
        push_arg(plan, "-mllvm");
        push_arg(plan, args[i].as_str());
        assert(av.take(i + 1).drop_last() =~= av.take(i as int));
        assert(parts_view(plan@) =~= start + mllvm_parts(av.take(i + 1)));
        i = i + 1;
    }
    assert(av.take(av.len() as int) =~= av);
}

impl ClangWrapper {
    /// Appends the `-o` parts of [`output_parts`].
    fn push_output(&self, plan: &mut Vec<CommandPart>, is_default: bool)
        ensures
            parts_view(final(plan)@) == parts_view(old(plan)@) + output_parts(self@, is_default),
    {
        let ghost start = parts_view(plan@);
        match &self.output {
            Some(o) => {
                push_arg(plan, "-o");
                push_part(plan, CommandPart::Tagged(o.clone()));
            },
            None => {
                if !is_default {
                    match find_source(&self.base_args) {
                        Some(j) => {
                            push_arg(plan, "-o");
                            if self.linking {
                                push_part(plan, CommandPart::Tagged(String::from_str("a.out")));
                            } else {
                                assert(self.base_args@[j as int]@ == self@.base_args[j as int]);
                                push_part(plan, CommandPart::TaggedObject(self.base_args[j].clone()));
                            }
                        },
                        None => {},
                    }
                }
            },
        }
        assert(parts_view(plan@) =~= start + output_parts(self@, is_default));
    }

    /// Appends the parts of [`final_parts`].
    fn push_final(&self, plan: &mut Vec<CommandPart>)
        ensures
            parts_view(final(plan)@) == parts_view(old(plan)@) + final_parts(self@),
    {
        let ghost start = parts_view(plan@);
        if self.linking {
            if self.x_set {
                push_arg(plan, "-x");
                push_arg(plan, "none");
            }
            let ghost with_x = parts_view(plan@);
            push_args(plan, &self.link_args);
            let ghost with_link = parts_view(plan@);
            if self.passes.len() > 0 {
                push_args(plan, &self.passes_linking_args);
            }
            let ghost with_plink = parts_view(plan@);
            if !matches!(self.platform, Platform::Windows) {
                push_arg(plan, "-pthread");
                push_arg(plan, "-ldl");
                push_arg(plan, "-lm");
            }
            assert(parts_view(plan@) =~= start + final_parts(self@));
        } else {
            push_args(plan, &self.cc_args);
        }
    }

    /// The planned command for a configuration, `is_default_configuration`
    /// when it is the default one (see [`command_plan`]).
    pub fn command_for_configuration(&self, is_default_configuration: bool) -> (plan: Vec<CommandPart>)
        ensures
            parts_view(plan@) == command_plan(self@, is_default_configuration),
    {
        let mut plan: Vec<CommandPart> = Vec::new();
        assert(parts_view(plan@) =~= Seq::<PartView>::empty());
        if self.is_cpp {
            push_arg(&mut plan, self.wrapped_cxx.as_str());
        } else {
            push_arg(&mut plan, self.wrapped_cc.as_str());
        }
        self.push_output(&mut plan, is_default_configuration);
        push_base(&mut plan, &self.base_args);
        push_part(&mut plan, CommandPart::ConfigurationFlags);
        let ghost head = parts_view(plan@);
        assert(head =~= seq![PartView::Arg(compiler(self@))] + output_parts(self@, is_default_configuration)
            + base_parts(self@.base_args) + seq![PartView::ConfigurationFlags]);
        push_passes(&mut plan, &self.passes);
        let ghost with_passes = parts_view(plan@);
        if !self.is_asm && self.passes.len() > 0 {
            push_mllvm(&mut plan, &self.passes_args);
        }
        let ghost with_mllvm = parts_view(plan@);
        assert(with_mllvm =~= with_passes + (if !self@.is_asm && self@.passes.len() > 0 {
            mllvm_parts(self@.passes_args)
        } else {
            Seq::<PartView>::empty()
        }));
        self.push_final(&mut plan);
        assert(parts_view(plan@) =~= with_mllvm + final_parts(self@));
        plan
    }

    /// The planned command for the default configuration.
    pub fn command(&self) -> (plan: Vec<CommandPart>)
        ensures
            parts_view(plan@) == command_plan(self@, true),
    {
        self.command_for_configuration(true)
    }
}

} // verus!

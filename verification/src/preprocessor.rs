//! The glue templater: reads injection fragments and puts their sections
//! into the placeholders of the main activity's source.

use crate::text::chars_of;
use crate::text::contains;
use crate::text::contains_text;
use crate::text::lines;
use crate::text::matches_at;
use crate::text::push_all;
use crate::text::replace;
use crate::text::replace_all;
use crate::text::rows;
use crate::text::split_lines;
use crate::text::starts_with;
use crate::text::string_of;
use crate::text::texts;
use vstd::prelude::*;

verus! {

/// A section of an injection fragment.
#[derive(Clone, Copy, Debug, PartialEq, Eq, Structural)]
pub enum Section {
    Imports,
    Body,
    OnCreate,
    OnResume,
    OnPause,
}

/// What a line of a fragment is to the scanner.
#[derive(Clone, Copy, Debug, PartialEq, Eq, Structural)]
pub enum LineKind {
    /// An empty line: skipped.
    Blank,
    /// A marker that opens a section.
    Open(Section),
    /// The marker that closes the open section.
    Close,
    /// Any other line: content of the open section, if one is open.
    Content,
}

/// Why a fragment is malformed.
#[derive(Clone, Copy, Debug, PartialEq, Eq, Structural)]
pub enum TemplateError {
    /// A marker opens a section while another one is open.
    SectionAlreadyOpen,
    /// A closing marker stands where no section is open.
    NoSectionOpen,
}

/// The text injected into the methods and the body of the main activity.
#[derive(Debug)]
pub struct ClassInject {
    pub body: String,
    pub on_resume: String,
    pub on_pause: String,
    pub on_create: String,
}

/// The text injected into the main activity's source, section by section.
#[derive(Debug)]
pub struct Inject {
    pub imports: String,
    pub main_activity: ClassInject,
}

/// The sections of an `Inject` as text.
pub struct InjectText {
    pub imports: Seq<char>,
    pub body: Seq<char>,
    pub on_resume: Seq<char>,
    pub on_pause: Seq<char>,
    pub on_create: Seq<char>,
}

impl InjectText {
    /// Five empty sections.
    pub open spec fn empty() -> InjectText {
        InjectText {
            imports: seq![],
            body: seq![],
            on_resume: seq![],
            on_pause: seq![],
            on_create: seq![],
        }
    }

    /// The text of one section.
    pub open spec fn section(self, section: Section) -> Seq<char> {
        match section {
            Section::Imports => self.imports,
            Section::Body => self.body,
            Section::OnCreate => self.on_create,
            Section::OnResume => self.on_resume,
            Section::OnPause => self.on_pause,
        }
    }

    /// These sections with `line` and a line break at the end of `section`.
    pub open spec fn with_line(self, section: Section, line: Seq<char>) -> InjectText {
        match section {
            Section::Imports => InjectText { imports: self.imports + line + seq!['\n'], ..self },
            Section::Body => InjectText { body: self.body + line + seq!['\n'], ..self },
            Section::OnCreate => InjectText {
                on_create: self.on_create + line + seq!['\n'],
                ..self
            },
            Section::OnResume => InjectText {
                on_resume: self.on_resume + line + seq!['\n'],
                ..self
            },
            Section::OnPause => InjectText { on_pause: self.on_pause + line + seq!['\n'], ..self },
        }
    }

    /// Each section of `self` followed by the same section of `other`.
    pub open spec fn merged_with(self, other: InjectText) -> InjectText {
        InjectText {
            imports: self.imports + other.imports,
            body: self.body + other.body,
            on_resume: self.on_resume + other.on_resume,
            on_pause: self.on_pause + other.on_pause,
            on_create: self.on_create + other.on_create,
        }
    }
}

impl View for Inject {
    type V = InjectText;

    open spec fn view(&self) -> InjectText {
        InjectText {
            imports: self.imports@,
            body: self.main_activity.body@,
            on_resume: self.main_activity.on_resume@,
            on_pause: self.main_activity.on_pause@,
            on_create: self.main_activity.on_create@,
        }
    }
}

/// `line` starts with the marker sigil and names `name`.
pub open spec fn is_marker(line: Seq<char>, name: Seq<char>) -> bool {
    starts_with(line, "//%"@) && contains(line, name)
}

/// How the scanner reads `line`. A line that names several sections opens
/// the first of them in the order imports, body, on-create, on-resume,
/// on-pause; the closing marker comes last.
pub open spec fn line_kind(line: Seq<char>) -> LineKind {
    if line.len() == 0 {
        LineKind::Blank
    } else if is_marker(line, "IMPORTS"@) {
        LineKind::Open(Section::Imports)
    } else if is_marker(line, "MAIN_ACTIVITY_BODY"@) {
        LineKind::Open(Section::Body)
    } else if is_marker(line, "MAIN_ACTIVITY_ON_CREATE"@) {
        LineKind::Open(Section::OnCreate)
    } else if is_marker(line, "MAIN_ACTIVITY_ON_RESUME"@) {
        LineKind::Open(Section::OnResume)
    } else if is_marker(line, "MAIN_ACTIVITY_ON_PAUSE"@) {
        LineKind::Open(Section::OnPause)
    } else if is_marker(line, "END"@) {
        LineKind::Close
    } else {
        LineKind::Content
    }
}

/// The scanner's state: what it has gathered and which section is open.
pub struct Scan {
    pub inject: InjectText,
    pub open: Option<Section>,
}

/// The state after one more line.
pub open spec fn scan_line(state: Scan, line: Seq<char>) -> Result<Scan, TemplateError> {
    match line_kind(line) {
        LineKind::Blank => Ok(state),
        LineKind::Open(section) => if state.open is None {
            Ok(Scan { inject: state.inject, open: Some(section) })
        } else {
            Err(TemplateError::SectionAlreadyOpen)
        },
        LineKind::Close => if state.open is Some {
            Ok(Scan { inject: state.inject, open: None })
        } else {
            Err(TemplateError::NoSectionOpen)
        },
        LineKind::Content => match state.open {
            Some(section) => Ok(
                Scan { inject: state.inject.with_line(section, line), open: state.open },
            ),
            None => Ok(state),
        },
    }
}

/// The state after all of `lines`, or the error of the first line that the
/// scanner cannot take.
pub open spec fn scan_lines(state: Scan, lines: Seq<Seq<char>>) -> Result<Scan, TemplateError>
    decreases lines.len(),
{
    if lines.len() == 0 {
        Ok(state)
    } else {
        match scan_lines(state, lines.drop_last()) {
            Ok(before) => scan_line(before, lines.last()),
            Err(error) => Err(error),
        }
    }
}

/// The sections of the fragment `file`.
pub open spec fn parsed_template(file: Seq<char>) -> Result<InjectText, TemplateError> {
    match scan_lines(Scan { inject: InjectText::empty(), open: None }, lines(file)) {
        Ok(state) => Ok(state.inject),
        Err(error) => Err(error),
    }
}

/// The sections of all `fragments`, each section in the order of the
/// fragments, or the error of the first malformed fragment.
pub open spec fn merged_templates(fragments: Seq<Seq<char>>) -> Result<InjectText, TemplateError>
    decreases fragments.len(),
{
    if fragments.len() == 0 {
        Ok(InjectText::empty())
    } else {
        match merged_templates(fragments.drop_last()) {
            Ok(before) => match parsed_template(fragments.last()) {
                Ok(last) => Ok(before.merged_with(last)),
                Err(error) => Err(error),
            },
            Err(error) => Err(error),
        }
    }
}

/// The main activity's source with the package's names and the sections of
/// `inject` in place of their placeholders.
pub open spec fn preprocessed(
    java_src: Seq<char>,
    package_name: Seq<char>,
    library_name: Seq<char>,
    inject: InjectText,
) -> Seq<char> {
    let named = replace_all(
        replace_all(java_src, "TARGET_PACKAGE_NAME"@, package_name),
        "LIBRARY_NAME"@,
        library_name,
    );
    replace_all(
        replace_all(
            replace_all(
                replace_all(
                    replace_all(named, "//% IMPORTS"@, inject.imports),
                    "//% MAIN_ACTIVITY_BODY"@,
                    inject.body,
                ),
                "//% MAIN_ACTIVITY_ON_RESUME"@,
                inject.on_resume,
            ),
            "//% MAIN_ACTIVITY_ON_PAUSE"@,
            inject.on_pause,
        ),
        "//% MAIN_ACTIVITY_ON_CREATE"@,
        inject.on_create,
    )
}

impl ClassInject {
    /// Four empty sections.
    pub fn new() -> (res: ClassInject)
        ensures
            res.body@.len() == 0,
            res.on_resume@.len() == 0,
            res.on_pause@.len() == 0,
            res.on_create@.len() == 0,
    {
        ClassInject {
            body: String::new(),
            on_resume: String::new(),
            on_pause: String::new(),
            on_create: String::new(),
        }
    }
}

impl Default for ClassInject {
    fn default() -> (res: ClassInject)
        ensures
            res.body@.len() == 0,
            res.on_resume@.len() == 0,
            res.on_pause@.len() == 0,
            res.on_create@.len() == 0,
    {
        ClassInject::new()
    }
}

impl Inject {
    /// Five empty sections.
    pub fn new() -> (res: Inject)
        ensures
            res@ == InjectText::empty(),
    {
        let res = Inject { imports: String::new(), main_activity: ClassInject::new() };
        proof {
            assert(res.imports@ =~= seq![]);
            assert(res.main_activity.body@ =~= seq![]);
            assert(res.main_activity.on_resume@ =~= seq![]);
            assert(res.main_activity.on_pause@ =~= seq![]);
            assert(res.main_activity.on_create@ =~= seq![]);
        }
        res
    }

    /// Appends each section of `other` to the same section of `self`.
    pub fn add(&mut self, other: Inject)
        ensures
            final(self)@ == old(self)@.merged_with(other@),
    {
        self.imports.append(other.imports.as_str());
        self.main_activity.body.append(other.main_activity.body.as_str());
        self.main_activity.on_resume.append(other.main_activity.on_resume.as_str());
        self.main_activity.on_pause.append(other.main_activity.on_pause.as_str());
        self.main_activity.on_create.append(other.main_activity.on_create.as_str());
    }
}

impl Default for Inject {
    fn default() -> (res: Inject)
        ensures
            res@ == InjectText::empty(),
    {
        Inject::new()
    }
}

/// The sections gathered so far, as the scanner holds them.
struct Gathered {
    imports: Vec<char>,
    body: Vec<char>,
    on_resume: Vec<char>,
    on_pause: Vec<char>,
    on_create: Vec<char>,
}

impl Gathered {
    spec fn text(self) -> InjectText {
        InjectText {
            imports: self.imports@,
            body: self.body@,
            on_resume: self.on_resume@,
            on_pause: self.on_pause@,
            on_create: self.on_create@,
        }
    }

    fn add_line(&mut self, section: Section, line: &Vec<char>)
        ensures
            final(self).text() == old(self).text().with_line(section, line@),
    {
        match section {
            Section::Imports => {
                push_all(&mut self.imports, line);
                self.imports.push('\n');
                assert(self.imports@ =~= old(self).imports@ + line@ + seq!['\n']);
            },
            Section::Body => {
                push_all(&mut self.body, line);
                self.body.push('\n');
                assert(self.body@ =~= old(self).body@ + line@ + seq!['\n']);
            },
            Section::OnCreate => {
                push_all(&mut self.on_create, line);
                self.on_create.push('\n');
                assert(self.on_create@ =~= old(self).on_create@ + line@ + seq!['\n']);
            },
            Section::OnResume => {
                push_all(&mut self.on_resume, line);
                self.on_resume.push('\n');
                assert(self.on_resume@ =~= old(self).on_resume@ + line@ + seq!['\n']);
            },
            Section::OnPause => {
                push_all(&mut self.on_pause, line);
                self.on_pause.push('\n');
                assert(self.on_pause@ =~= old(self).on_pause@ + line@ + seq!['\n']);
            },
        }
    }
}

/// Whether `line` starts with the marker sigil and names `name`.
fn marks(line: &Vec<char>, sigil: &Vec<char>, name: &str) -> (res: bool)
    requires
        sigil@ == "//%"@,
    ensures
        res == is_marker(line@, name@),
{
    matches_at(line, sigil, 0) && contains_text(line, &chars_of(name))
}

/// Reads one line of a fragment as the scanner does.
pub fn classify_line(line: &Vec<char>) -> (res: LineKind)
    ensures
        res == line_kind(line@),
{
    let sigil = chars_of("//%");
    if line.len() == 0 {
        LineKind::Blank
    } else if marks(line, &sigil, "IMPORTS") {
        LineKind::Open(Section::Imports)
    } else if marks(line, &sigil, "MAIN_ACTIVITY_BODY") {
        LineKind::Open(Section::Body)
    } else if marks(line, &sigil, "MAIN_ACTIVITY_ON_CREATE") {
        LineKind::Open(Section::OnCreate)
    } else if marks(line, &sigil, "MAIN_ACTIVITY_ON_RESUME") {
        LineKind::Open(Section::OnResume)
    } else if marks(line, &sigil, "MAIN_ACTIVITY_ON_PAUSE") {
        LineKind::Open(Section::OnPause)
    } else if marks(line, &sigil, "END") {
        LineKind::Close
    } else {
        LineKind::Content
    }
}

/// Reads the sections of an injection fragment. Fails on the first marker
/// that opens a section inside another, or closes where none is open.
pub fn try_parse_inject_template(file: &str) -> (res: Result<Inject, TemplateError>)
    ensures
        match res {
            Ok(inject) => parsed_template(file@) == Ok::<InjectText, TemplateError>(inject@),
            Err(error) => parsed_template(file@) == Err::<InjectText, TemplateError>(error),
        },
{
    let all = split_lines(&chars_of(file));
    let mut gathered = Gathered {
        imports: Vec::new(),
        body: Vec::new(),
        on_resume: Vec::new(),
        on_pause: Vec::new(),
        on_create: Vec::new(),
    };
    let mut open: Option<Section> = None;
    let ghost start = Scan { inject: InjectText::empty(), open: None };
    proof {
        assert(gathered.text() == InjectText::empty());
        assert(rows(all@).take(0) =~= seq![]);
    }
    let mut i: usize = 0;
    while i < all.len()
        invariant
            i <= all@.len(),
            rows(all@) == lines(file@),
            start == (Scan { inject: InjectText::empty(), open: None }),
            scan_lines(start, rows(all@).take(i as int)) == Ok::<Scan, TemplateError>(
                Scan { inject: gathered.text(), open },
            ),
        decreases all@.len() - i,
    {
        let ghost before = Scan { inject: gathered.text(), open };
        proof {
            assert(rows(all@).take(i + 1).drop_last() =~= rows(all@).take(i as int));
            assert(rows(all@).take(i + 1).last() == all@[i as int]@);
        }
        match classify_line(&all[i]) {
            LineKind::Blank => {},
            LineKind::Open(section) => {
                if open.is_some() {
                    proof {
                        lemma_scan_error_stays(start, rows(all@), i + 1);
                    }
                    return Err(TemplateError::SectionAlreadyOpen);
                }
                open = Some(section);
            },
            LineKind::Close => {
                if open.is_none() {
                    proof {
                        lemma_scan_error_stays(start, rows(all@), i + 1);
                    }
                    return Err(TemplateError::NoSectionOpen);
                }
                open = None;
            },
            LineKind::Content => {
                match open {
                    Some(section) => {
                        gathered.add_line(section, &all[i]);
                    },
                    None => {},
                }
            },
        }
        i += 1;
    }
    proof {
        assert(rows(all@).take(all@.len() as int) =~= rows(all@));
    }
    let inject = Inject {
        imports: string_of(&gathered.imports),
        main_activity: ClassInject {
            body: string_of(&gathered.body),
            on_resume: string_of(&gathered.on_resume),
            on_pause: string_of(&gathered.on_pause),
            on_create: string_of(&gathered.on_create),
        },
    };
    Ok(inject)
}

/// Once scanning a prefix of the lines has failed, scanning all of them
/// fails in the same way.
proof fn lemma_scan_error_stays(start: Scan, all: Seq<Seq<char>>, n: int)
    requires
        0 <= n <= all.len(),
        scan_lines(start, all.take(n)) is Err,
    ensures
        scan_lines(start, all) == scan_lines(start, all.take(n)),
    decreases all.len() - n,
{
    if n < all.len() {
        assert(all.take(n + 1).drop_last() =~= all.take(n));
        lemma_scan_error_stays(start, all, n + 1);
    } else {
        assert(all.take(n) =~= all);
    }
}

/// Reads the sections of a well-formed injection fragment.
pub fn parse_inject_template(file: &str) -> (res: Inject)
    requires
        parsed_template(file@) is Ok,
    ensures
        parsed_template(file@) == Ok::<InjectText, TemplateError>(res@),
{
    match try_parse_inject_template(file) {
        Ok(inject) => inject,
        Err(_) => vstd::pervasive::unreached(),
    }
}

/// Reads every fragment and merges their sections in the order of the
/// fragments. Fails with the error of the first malformed fragment.
pub fn merge_inject_templates(fragments: &Vec<String>) -> (res: Result<Inject, TemplateError>)
    ensures
        match res {
            Ok(inject) => merged_templates(texts(fragments@)) == Ok::<InjectText, TemplateError>(
                inject@,
            ),
            Err(error) => merged_templates(texts(fragments@)) == Err::<InjectText, TemplateError>(
                error,
            ),
        },
{
    let mut inject = Inject::new();
    proof {
        assert(texts(fragments@).take(0) =~= seq![]);
    }
    let mut i: usize = 0;
    while i < fragments.len()
        invariant
            i <= fragments@.len(),
            merged_templates(texts(fragments@).take(i as int)) == Ok::<InjectText, TemplateError>(
                inject@,
            ),
        decreases fragments@.len() - i,
    {
        proof {
            assert(texts(fragments@).take(i + 1).drop_last() =~= texts(fragments@).take(i as int));
            assert(texts(fragments@).take(i + 1).last() == fragments@[i as int]@);
        }
        match try_parse_inject_template(fragments[i].as_str()) {
            Ok(parsed) => {
                inject.add(parsed);
            },
            Err(error) => {
                proof {
                    lemma_merge_error_stays(texts(fragments@), i + 1);
                }
                return Err(error);
            },
        }
        i += 1;
    }
    proof {
        assert(texts(fragments@).take(fragments@.len() as int) =~= texts(fragments@));
    }
    Ok(inject)
}

/// Once merging a prefix of the fragments has failed, merging all of them
/// fails in the same way.
proof fn lemma_merge_error_stays(fragments: Seq<Seq<char>>, n: int)
    requires
        0 <= n <= fragments.len(),
        merged_templates(fragments.take(n)) is Err,
    ensures
        merged_templates(fragments) == merged_templates(fragments.take(n)),
    decreases fragments.len() - n,
{
    if n < fragments.len() {
        assert(fragments.take(n + 1).drop_last() =~= fragments.take(n));
        lemma_merge_error_stays(fragments, n + 1);
    } else {
        assert(fragments.take(n) =~= fragments);
    }
}

/// Puts the package's names and the sections of `inject` into the main
/// activity's source.
pub fn substitute_injects(
    java_src: &str,
    package_name: &str,
    library_name: &str,
    inject: &Inject,
) -> (res: String)
    ensures
        res@ == preprocessed(java_src@, package_name@, library_name@, inject@),
{
    let res = replace(java_src, "TARGET_PACKAGE_NAME", package_name);
    let res = replace(res.as_str(), "LIBRARY_NAME", library_name);
    let res = replace(res.as_str(), "//% IMPORTS", inject.imports.as_str());
    let res = replace(res.as_str(), "//% MAIN_ACTIVITY_BODY", inject.main_activity.body.as_str());
    let res = replace(
        res.as_str(),
        "//% MAIN_ACTIVITY_ON_RESUME",
        inject.main_activity.on_resume.as_str(),
    );
    let res = replace(
        res.as_str(),
        "//% MAIN_ACTIVITY_ON_PAUSE",
        inject.main_activity.on_pause.as_str(),
    );
    replace(res.as_str(), "//% MAIN_ACTIVITY_ON_CREATE", inject.main_activity.on_create.as_str())
}

/// Produces the source of the main activity for a package: the names of the
/// package and of its library replace their tokens, and the sections of the
/// fragments, merged in the order given, replace their placeholders.
pub fn preprocess_main_activity(
    java_src: &str,
    package_name: &str,
    library_name: &str,
    inject_sources: &Vec<String>,
) -> (res: Result<String, TemplateError>)
    ensures
        match res {
            Ok(source) => match merged_templates(texts(inject_sources@)) {
                Ok(inject) => source@ == preprocessed(
                    java_src@,
                    package_name@,
                    library_name@,
                    inject,
                ),
                Err(_) => false,
            },
            Err(error) => merged_templates(texts(inject_sources@)) == Err::<
                InjectText,
                TemplateError,
            >(error),
        },
{
    match merge_inject_templates(inject_sources) {
        Ok(inject) => Ok(substitute_injects(java_src, package_name, library_name, &inject)),
        Err(error) => Err(error),
    }
}

/// Merging is associative: sections come out in the order of the fragments,
/// however the merges are grouped.
pub proof fn lemma_merge_associative(a: InjectText, b: InjectText, c: InjectText)
    ensures
        a.merged_with(b).merged_with(c) == a.merged_with(b.merged_with(c)),
        forall|section: Section|
            #[trigger] a.merged_with(b).section(section) == a.section(section) + b.section(
                section,
            ),
{
    assert(a.imports + b.imports + c.imports =~= a.imports + (b.imports + c.imports));
    assert(a.body + b.body + c.body =~= a.body + (b.body + c.body));
    assert(a.on_resume + b.on_resume + c.on_resume =~= a.on_resume + (b.on_resume + c.on_resume));
    assert(a.on_pause + b.on_pause + c.on_pause =~= a.on_pause + (b.on_pause + c.on_pause));
    assert(a.on_create + b.on_create + c.on_create =~= a.on_create + (b.on_create + c.on_create));
}

/// Merging a list of fragments gives what merging its front part and then
/// appending the merge of its back part gives, and so does substituting
/// either into the main activity's source.
pub proof fn lemma_merge_splits(
    front: Seq<Seq<char>>,
    back: Seq<Seq<char>>,
    java_src: Seq<char>,
    package_name: Seq<char>,
    library_name: Seq<char>,
)
    requires
        merged_templates(front) is Ok,
        merged_templates(back) is Ok,
    ensures
        merged_templates(front + back) == Ok::<InjectText, TemplateError>(
            merged_templates(front)->Ok_0.merged_with(merged_templates(back)->Ok_0),
        ),
        preprocessed(java_src, package_name, library_name, merged_templates(front + back)->Ok_0)
            == preprocessed(
            java_src,
            package_name,
            library_name,
            merged_templates(front)->Ok_0.merged_with(merged_templates(back)->Ok_0),
        ),
    decreases back.len(),
{
    let whole = merged_templates(front)->Ok_0;
    if back.len() == 0 {
        assert(front + back =~= front);
        let e = InjectText::empty();
        assert(whole.imports + e.imports =~= whole.imports);
        assert(whole.body + e.body =~= whole.body);
        assert(whole.on_resume + e.on_resume =~= whole.on_resume);
        assert(whole.on_pause + e.on_pause =~= whole.on_pause);
        assert(whole.on_create + e.on_create =~= whole.on_create);
    } else {
        assert((front + back).drop_last() =~= front + back.drop_last());
        assert((front + back).last() == back.last());
        lemma_merge_splits(front, back.drop_last(), java_src, package_name, library_name);
        let mid = merged_templates(back.drop_last())->Ok_0;
        let last = parsed_template(back.last())->Ok_0;
        lemma_merge_associative(whole, mid, last);
    }
}

} // verus!

//! The hardware summary that the client reads out of `inxi -Fxz -c0`.
use vstd::prelude::*;
use crate::text::{
    before_first, chars_of, contains, contains_chars, find, lemma_find, matches_at, first_piece_of, has_prefix, lines, lines_of,
    second_piece, second_piece_of, starts_with, string_of, trim, trim_chars, views,
};
use crate::text::push_str;

verus! {

/// The hardware summary shown in the client's information tab.
#[derive(Debug, Clone)]
pub struct InxiData {
    pub distro: String,
    pub desktop: String,
    pub kernel: String,
    pub cpu: String,
    pub gpu: String,
    pub ram: String,
    pub model: String,
    pub raw: String,
}

/// An `InxiData` by the characters of its texts.
#[verifier::ext_equal]
pub struct InxiView {
    pub distro: Seq<char>,
    pub desktop: Seq<char>,
    pub kernel: Seq<char>,
    pub cpu: Seq<char>,
    pub gpu: Seq<char>,
    pub ram: Seq<char>,
    pub model: Seq<char>,
    pub raw: Seq<char>,
}

impl View for InxiData {
    type V = InxiView;

    open spec fn view(&self) -> InxiView {
        InxiView {
            distro: self.distro@,
            desktop: self.desktop@,
            kernel: self.kernel@,
            cpu: self.cpu@,
            gpu: self.gpu@,
            ram: self.ram@,
            model: self.model@,
            raw: self.raw@,
        }
    }
}

/// The section of inxi's report that a line belongs to.
#[derive(Debug, Clone, Copy, PartialEq, Eq, Structural)]
pub enum Section {
    Other,
    System,
    Machine,
    Cpu,
    Graphics,
    Info,
}

/// The section that a line opens, if it opens one.
pub open spec fn section_opened(line: Seq<char>) -> Option<Section> {
    if starts_with(line, "System:"@) {
        Some(Section::System)
    } else if starts_with(line, "Machine:"@) {
        Some(Section::Machine)
    } else if starts_with(line, "CPU:"@) {
        Some(Section::Cpu)
    } else if starts_with(line, "Graphics:"@) {
        Some(Section::Graphics)
    } else if starts_with(line, "Info:"@) {
        Some(Section::Info)
    } else {
        None
    }
}

/// What stands between `key` and `end` in `t`, trimmed:
/// `t.split(key).nth(1).unwrap_or("").split(end).next().unwrap_or("").trim()`.
pub open spec fn field(t: Seq<char>, key: Seq<char>, end: Seq<char>) -> Seq<char> {
    trim(
        before_first(
            match second_piece(t, key) {
                Some(v) => v,
                None => seq![],
            },
            end,
        ),
    )
}

/// The summary after one more line of the report, in the given section.
pub open spec fn read_line(section: Section, d: InxiView, line: Seq<char>) -> InxiView {
    let t = trim(line);
    match section {
        Section::System => {
            let d1 = if contains(t, "Kernel:"@) {
                InxiView { kernel: field(t, "Kernel:"@, "arch:"@), ..d }
            } else {
                d
            };
            let d2 = if contains(t, "Desktop:"@) {
                InxiView { desktop: field(t, "Desktop:"@, "Distro:"@), ..d1 }
            } else {
                d1
            };
            if contains(t, "Distro:"@) {
                InxiView { distro: field(t, "Distro:"@, "base:"@), ..d2 }
            } else {
                d2
            }
        },
        Section::Machine => if contains(t, "product:"@) {
            InxiView { model: field(t, "product:"@, "v:"@), ..d }
        } else {
            d
        },
        Section::Cpu => if contains(t, "model:"@) {
            InxiView { cpu: field(t, "model:"@, "bits:"@), ..d }
        } else {
            d
        },
        Section::Graphics => if contains(t, "Device-"@) && contains(t, "model:"@) {
            let g = field(t, "model:"@, "vendor:"@);
            if d.gpu == "Unknown"@ {
                InxiView { gpu: g, ..d }
            } else if !contains(d.gpu, g) {
                InxiView { gpu: d.gpu + " | "@ + g, ..d }
            } else {
                d
            }
        } else {
            d
        },
        Section::Info => if contains(t, "Memory:"@) {
            InxiView { ram: field(t, "total:"@, "note:"@), ..d }
        } else {
            d
        },
        Section::Other => d,
    }
}

/// The section and the summary after a line: a line that opens a section
/// changes only the section; any other line is read in the current one.
pub open spec fn next_state(st: (Section, InxiView), line: Seq<char>) -> (Section, InxiView) {
    match section_opened(line) {
        Some(s) => (s, st.1),
        None => (st.0, read_line(st.0, st.1, line)),
    }
}

/// The section and the summary after the lines, from `init`.
pub open spec fn read_lines(init: (Section, InxiView), ls: Seq<Seq<char>>) -> (Section, InxiView)
    decreases ls.len(),
{
    if ls.len() == 0 {
        init
    } else {
        next_state(read_lines(init, ls.drop_last()), ls.last())
    }
}

/// The summary before any line is read: every field "Unknown", and the raw
/// report being the output, or the error output where the output is empty.
pub open spec fn unknown_summary(raw: Seq<char>) -> InxiView {
    InxiView {
        distro: "Unknown"@,
        desktop: "Unknown"@,
        kernel: "Unknown"@,
        cpu: "Unknown"@,
        gpu: "Unknown"@,
        ram: "Unknown"@,
        model: "Unknown"@,
        raw,
    }
}

/// What a run of inxi yields: an error where it failed and wrote nothing,
/// else the summary read from its output.
pub open spec fn inxi_result(success: bool, stdout: Seq<char>, stderr: Seq<char>) -> Result<InxiView, Seq<char>> {
    if !success && stdout.len() == 0 {
        Err("inxi failed: "@ + stderr)
    } else {
        let raw = if stdout.len() == 0 {
            stderr
        } else {
            stdout
        };
        Ok(read_lines((Section::Other, unknown_summary(raw)), lines(stdout)).1)
    }
}

/// `field` for a line of the report.
fn field_of(t: &Vec<char>, key: &str, end: &str) -> (r: String)
    ensures
        r@ == field(t@, key@, end@),
{
    let k = chars_of(key);
    let e = chars_of(end);
    let piece = match second_piece_of(t, &k) {
        Some(v) => v,
        None => Vec::new(),
    };
    let before = first_piece_of(&piece, &e);
    string_of(&trim_chars(&before))
}

/// Whether `t` contains `pat`.
fn has(t: &Vec<char>, pat: &str) -> (b: bool)
    ensures
        b == contains(t@, pat@),
{
    contains_chars(t, &chars_of(pat))
}

/// The section that a line opens, if it opens one.
fn opened_section(line: &Vec<char>) -> (r: Option<Section>)
    ensures
        r == section_opened(line@),
{
    if has_prefix(line, &chars_of("System:")) {
        Some(Section::System)
    } else if has_prefix(line, &chars_of("Machine:")) {
        Some(Section::Machine)
    } else if has_prefix(line, &chars_of("CPU:")) {
        Some(Section::Cpu)
    } else if has_prefix(line, &chars_of("Graphics:")) {
        Some(Section::Graphics)
    } else if has_prefix(line, &chars_of("Info:")) {
        Some(Section::Info)
    } else {
        None
    }
}

/// Reads one line of the report into the summary, in the given section.
fn read_report_line(section: Section, d: &mut InxiData, line: &Vec<char>)
    ensures
        final(d)@ == read_line(section, old(d)@, line@),
{
    let t = trim_chars(line);
    match section {
        Section::System => {
            if has(&t, "Kernel:") {
                d.kernel = field_of(&t, "Kernel:", "arch:");
            }
            if has(&t, "Desktop:") {
                d.desktop = field_of(&t, "Desktop:", "Distro:");
            }
            if has(&t, "Distro:") {
                d.distro = field_of(&t, "Distro:", "base:");
            }
        },
        Section::Machine => {
            if has(&t, "product:") {
                d.model = field_of(&t, "product:", "v:");
            }
        },
        Section::Cpu => {
            if has(&t, "model:") {
                d.cpu = field_of(&t, "model:", "bits:");
            }
        },
        Section::Graphics => {
            if has(&t, "Device-") && has(&t, "model:") {
                let g = field_of(&t, "model:", "vendor:");
                if d.gpu == "Unknown".to_owned() {
                    d.gpu = g;
                } else if !contains_chars(&chars_of(d.gpu.as_str()), &chars_of(g.as_str())) {
                    push_str(&mut d.gpu, " | ");
                    push_str(&mut d.gpu, g.as_str());
                }
            }
        },
        Section::Info => {
            if has(&t, "Memory:") {
                d.ram = field_of(&t, "total:", "note:");
            }
        },
        Section::Other => {},
    }
    assert(d@ =~= read_line(section, old(d)@, line@));
}

/// Reads the hardware summary out of a run of `inxi -Fxz -c0`: whether it
/// succeeded, what it wrote to its output and to its error output.
pub fn parse_inxi_output(success: bool, stdout: &str, stderr: &str) -> (r: Result<InxiData, String>)
    ensures
        match r {
            Ok(d) => inxi_result(success, stdout@, stderr@) == Ok::<InxiView, Seq<char>>(d@),
            Err(e) => inxi_result(success, stdout@, stderr@) == Err::<InxiView, Seq<char>>(e@),
        },
{
    let out = chars_of(stdout);
    if !success && out.len() == 0 {
        let mut e = "inxi failed: ".to_owned();
        push_str(&mut e, stderr);
        return Err(e);
    }
    let raw = if out.len() == 0 {
        stderr.to_owned()
    } else {
        stdout.to_owned()
    };
    let mut d = InxiData {
        distro: "Unknown".to_owned(),
        desktop: "Unknown".to_owned(),
        kernel: "Unknown".to_owned(),
        cpu: "Unknown".to_owned(),
        gpu: "Unknown".to_owned(),
        ram: "Unknown".to_owned(),
        model: "Unknown".to_owned(),
        raw,
    };
    let ghost init = (Section::Other, d@);
    assert(d@ =~= unknown_summary(if stdout@.len() == 0 { stderr@ } else { stdout@ }));
    let ls = lines_of(&out);
    let mut section = Section::Other;
    let mut i: usize = 0;
    while i < ls.len()
        invariant
            i <= ls@.len(),
            (section, d@) == read_lines(init, views(ls@).subrange(0, i as int)),
        decreases ls@.len() - i,
    {
        let ghost p = views(ls@).subrange(0, i + 1);
        assert(p.drop_last() =~= views(ls@).subrange(0, i as int));
        assert(p.last() == ls@[i as int]@);
        match opened_section(&ls[i]) {
            Some(s) => {
                section = s;
            },
            None => {
                read_report_line(section, &mut d, &ls[i]);
            },
        }
        i = i + 1;
    }
    assert(views(ls@).subrange(0, ls@.len() as int) =~= views(ls@));
    Ok(d)
}


/// `g` occurs somewhere in `t`.
pub open spec fn occurs_in(t: Seq<char>, g: Seq<char>) -> bool {
    exists|i: int| 0 <= i && i + g.len() <= t.len() && #[trigger] t.subrange(i, i + g.len()) == g
}

/// Reading a GPU line of the Graphics section: a first GPU replaces
/// "Unknown", a GPU whose model already occurs in the summary leaves it as it
/// was, and any other is added after " | "; afterwards the model occurs in
/// the summary, and nothing but the GPU text changes.
pub proof fn law_gpu_listed_once(d: InxiView, line: Seq<char>)
    requires
        contains(trim(line), "Device-"@),
        contains(trim(line), "model:"@),
    ensures
        ({
            let g = field(trim(line), "model:"@, "vendor:"@);
            let r = read_line(Section::Graphics, d, line);
            &&& d.gpu == "Unknown"@ ==> r.gpu == g
            &&& d.gpu != "Unknown"@ && occurs_in(d.gpu, g) ==> r.gpu == d.gpu
            &&& d.gpu != "Unknown"@ && !occurs_in(d.gpu, g) ==> r.gpu == d.gpu + " | "@ + g
            &&& occurs_in(r.gpu, g)
            &&& r == InxiView { gpu: r.gpu, ..d }
        }),
{
    let g = field(trim(line), "model:"@, "vendor:"@);
    let r = read_line(Section::Graphics, d, line);
    lemma_find(d.gpu, g);
    if occurs_in(d.gpu, g) {
        let i = choose|i: int| 0 <= i && i + g.len() <= d.gpu.len() && #[trigger] d.gpu.subrange(i, i + g.len()) == g;
        assert(matches_at(d.gpu, g, i));
    }
    if contains(d.gpu, g) {
        let i = find(d.gpu, g)->0;
        assert(matches_at(d.gpu, g, i));
        assert(d.gpu.subrange(i, i + g.len()) == g);
    }
    if d.gpu == "Unknown"@ {
        assert(g.subrange(0, 0int + g.len()) =~= g);
        assert(occurs_in(r.gpu, g));
    } else if !contains(d.gpu, g) {
        let t = d.gpu + " | "@ + g;
        let at: int = (d.gpu.len() + " | "@.len()) as int;
        assert(t.subrange(at, at + g.len()) =~= g);
        assert(r.gpu == t);
        assert(occurs_in(r.gpu, g));
    } else {
        let i = find(d.gpu, g)->0;
        assert(r.gpu.subrange(i, i + g.len()) == g);
        assert(occurs_in(r.gpu, g));
    }
}

} // verus!

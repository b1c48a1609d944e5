//! The system prompt: a static part (who the assistant is) and a dynamic
//! part (where it works), joined around a boundary marker.

use vstd::prelude::*;
use vstd::string::StringExecFns;
use crate::message::Message;
use crate::text::{
    contains_seq, has_prefix, is_ws, lemma_contains_at, lemma_trim_end_keeps_prefix,
    lemma_trim_end_shape, lemma_trim_start_noop, trim, trim_end_ws,
    trim_start_ws, trim_ws,
};
use crate::utils::{
    ProjectFiles, detect_project_name, detect_project_type, opt_view, project_name, project_type,
    readme_summary, take_chars,
};

verus! {

/// The most README characters the prompt takes in (about 125 tokens).
pub const README_SUMMARY_MAX_CHARS: usize = 500;

/// The static prompt used when no prompt file is found.
pub const DEFAULT_SYSTEM_PROMPT: &'static str = "You are a helpful coding assistant";

/// The line that separates the static part of the system prompt from the
/// dynamic part.
pub const BOUNDARY: &'static str = "__SYSTEM_PROMPT_DYNAMIC_BOUNDARY__";

/// What the system prompt tells the model about the project.
pub struct PromptContext {
    pub cwd: String,
    pub project_name: String,
    pub project_summary: String,
    pub project_type: String,
    pub agents_md: Option<String>,
}

/// The mathematical value of a prompt context.
pub struct PromptContextView {
    pub cwd: Seq<char>,
    pub project_name: Seq<char>,
    pub project_summary: Seq<char>,
    pub project_type: Seq<char>,
    pub agents_md: Option<Seq<char>>,
}

impl View for PromptContext {
    type V = PromptContextView;

    open spec fn view(&self) -> PromptContextView {
        PromptContextView {
            cwd: self.cwd@,
            project_name: self.project_name@,
            project_summary: self.project_summary@,
            project_type: self.project_type@,
            agents_md: opt_view(self.agents_md),
        }
    }
}

/// The "Environment" section of the dynamic part.
pub open spec fn environment_section(c: PromptContextView) -> Seq<char> {
    "# Environment\n- Working Directory: "@ + c.cwd + "\n- Project: "@ + c.project_name
        + "\n- Project Type: "@ + c.project_type + "\n"@
}

/// The "Project Summary" section, present only when there is a summary.
pub open spec fn summary_section(c: PromptContextView) -> Seq<char> {
    if c.project_summary.len() > 0 {
        "\n# Project Summary\n"@ + c.project_summary + "\n"@
    } else {
        Seq::empty()
    }
}

/// The project-instructions section, present only when there is an AGENTS.md.
pub open spec fn agents_section(c: PromptContextView) -> Seq<char> {
    match c.agents_md {
        Some(a) => "\n# project instructions(agents.md)\n"@ + a + "\n"@,
        None => Seq::empty(),
    }
}

/// The dynamic part, before trimming.
pub open spec fn dynamic_part(c: PromptContextView) -> Seq<char> {
    environment_section(c) + summary_section(c) + agents_section(c)
}

/// The system prompt's text: the trimmed static part, a blank line, the
/// boundary, a blank line, and the trimmed dynamic part.
pub open spec fn system_prompt_text(static_prompt: Seq<char>, c: PromptContextView) -> Seq<char> {
    trim_ws(static_prompt) + "\n\n"@ + BOUNDARY@ + "\n\n"@ + trim_ws(dynamic_part(c))
}

/// The context a working directory gives: its path, the detected project
/// name and kind, the README's first characters and AGENTS.md.
pub open spec fn context_of(cwd: Seq<char>, files: ProjectFiles) -> PromptContextView {
    PromptContextView {
        cwd,
        project_name: project_name(files),
        project_summary: match opt_view(files.readme) {
            Some(r) => take_chars(r, README_SUMMARY_MAX_CHARS as nat),
            None => Seq::empty(),
        },
        project_type: project_type(files),
        agents_md: opt_view(files.agents_md),
    }
}

impl PromptContext {
    /// A context with the given parts.
    pub fn new(
        cwd: &str,
        project_name: &str,
        project_summary: &str,
        project_type: &str,
        agents_md: Option<&str>,
    ) -> (c: PromptContext)
        ensures
            c@.cwd == cwd@,
            c@.project_name == project_name@,
            c@.project_summary == project_summary@,
            c@.project_type == project_type@,
            c@.agents_md == match agents_md {
                Some(a) => Some(a@),
                None => None::<Seq<char>>,
            },
    {
        PromptContext {
            cwd: cwd.to_owned(),
            project_name: project_name.to_owned(),
            project_type: project_type.to_owned(),
            project_summary: project_summary.to_owned(),
            agents_md: match agents_md {
                Some(a) => Some(a.to_owned()),
                None => None,
            },
        }
    }

    /// The context of the working directory `base`, from what it holds.
    pub fn from_path(base: &str, files: &ProjectFiles) -> (c: PromptContext)
        ensures
            c@ == context_of(base@, *files),
    {
        let project_name = detect_project_name(files);
        let project_type = detect_project_type(files);
        let project_summary = match &files.readme {
            Some(r) => readme_summary(Some(r.as_str()), README_SUMMARY_MAX_CHARS),
            None => readme_summary(None, README_SUMMARY_MAX_CHARS),
        };
        let agents_md = match &files.agents_md {
            Some(a) => Some(a.clone()),
            None => None,
        };
        PromptContext {
            cwd: base.to_owned(),
            project_name,
            project_type,
            project_summary,
            agents_md,
        }
    }

    /// The dynamic part of the prompt, before trimming.
    fn dynamic_part(&self) -> (s: String)
        ensures
            s@ == dynamic_part(self@),
    {
        let mut d = "# Environment\n- Working Directory: ".to_owned();
        d.append(self.cwd.as_str());
        d.append("\n- Project: ");
        d.append(self.project_name.as_str());
        d.append("\n- Project Type: ");
        d.append(self.project_type.as_str());
        d.append("\n");
        let ghost env = d@;
        if !self.project_summary.as_str().is_empty() {
            d.append("\n# Project Summary\n");
            d.append(self.project_summary.as_str());
            d.append("\n");
        }
        let ghost with_summary = d@;
        proof {
            assert(with_summary =~= env + summary_section(self@));
        }
        if let Some(agents) = &self.agents_md {
            d.append("\n# project instructions(agents.md)\n");
            d.append(agents.as_str());
            d.append("\n");
        }
        proof {
            assert(d@ =~= with_summary + agents_section(self@));
        }
        d
    }

    /// The system message built from the given static prompt and this context.
    pub fn assemble_system_message(&self, static_prompt: &str) -> (m: Message)
        ensures
            m@.role == "system"@,
            m@.content == system_prompt_text(static_prompt@, self@),
    {
        let dynamic = self.dynamic_part();
        let mut full = trim(static_prompt);
        full.append("\n\n");
        full.append(BOUNDARY);
        full.append("\n\n");
        let dynamic_trimmed = trim(dynamic.as_str());
        full.append(dynamic_trimmed.as_str());
        Message::system(full.as_str())
    }

    /// The system message, with the static prompt read from the prompt file
    /// (`static_file`), or the default prompt when there is none.
    pub fn system_prompt(&self, static_file: Option<&str>) -> (m: Message)
        ensures
            m@.role == "system"@,
            m@.content == system_prompt_text(
                match static_file {
                    Some(s) => s@,
                    None => DEFAULT_SYSTEM_PROMPT@,
                },
                self@,
            ),
    {
        match static_file {
            Some(s) => self.assemble_system_message(s),
            None => self.assemble_system_message(DEFAULT_SYSTEM_PROMPT),
        }
    }
}

/// The system prompt starts with the static prompt, trimmed.
pub proof fn law_prompt_starts_with_static(static_prompt: Seq<char>, c: PromptContextView)
    ensures
        has_prefix(system_prompt_text(static_prompt, c), trim_ws(static_prompt)),
{
    let t = system_prompt_text(static_prompt, c);
    let a = trim_ws(static_prompt);
    assert(t.take(a.len() as int) =~= a);
}

/// The system prompt always holds the boundary between its static and its
/// dynamic part.
pub proof fn law_prompt_has_boundary(static_prompt: Seq<char>, c: PromptContextView)
    ensures
        contains_seq(system_prompt_text(static_prompt, c), BOUNDARY@),
{
    let t = system_prompt_text(static_prompt, c);
    let i: int = (trim_ws(static_prompt).len() + "\n\n"@.len()) as int;
    assert(t.subrange(i, i + BOUNDARY@.len()) =~= BOUNDARY@);
    lemma_contains_at(t, BOUNDARY@, i);
}

/// The dynamic part starts with its heading, so trimming its start keeps it whole.
proof fn lemma_dynamic_starts_clean(c: PromptContextView)
    ensures
        trim_start_ws(dynamic_part(c)) == dynamic_part(c),
{
    reveal_strlit("# Environment\n- Working Directory: ");
    let d = dynamic_part(c);
    assert(d[0] == '#');
    lemma_trim_start_noop(d);
}

/// When the project has an AGENTS.md, the system prompt holds the
/// project-instructions heading and the file's text (without its trailing
/// whitespace, which the final trim drops).
pub proof fn law_prompt_has_agents_md(static_prompt: Seq<char>, c: PromptContextView)
    requires
        c.agents_md is Some,
    ensures
        contains_seq(system_prompt_text(static_prompt, c), "# project instructions(agents.md)"@),
        contains_seq(system_prompt_text(static_prompt, c), trim_end_ws(c.agents_md->0)),
{
    let a = c.agents_md->0;
    let heading = "\n# project instructions(agents.md)\n"@;
    let title = "# project instructions(agents.md)"@;
    reveal_strlit("\n# project instructions(agents.md)\n");
    reveal_strlit("# project instructions(agents.md)");
    let p = environment_section(c) + summary_section(c);
    let pl: int = p.len() as int;
    let d = dynamic_part(c);
    assert(d =~= p + heading + a + "\n"@);
    lemma_dynamic_starts_clean(c);
    let dt = trim_ws(d);
    assert(dt == trim_end_ws(d));
    let prefix_len: int = (trim_ws(static_prompt).len() + "\n\n"@.len() + BOUNDARY@.len()
        + "\n\n"@.len()) as int;
    let t = system_prompt_text(static_prompt, c);
    assert(t =~= (trim_ws(static_prompt) + "\n\n"@ + BOUNDARY@ + "\n\n"@) + dt);
    // The heading survives the trim up to its closing parenthesis.
    let k: int = pl + heading.len() - 1;
    assert(d[k - 1] == ')');
    lemma_trim_end_keeps_prefix(d, k);
    assert(heading.len() == title.len() + 2);
    assert(heading.subrange(1, 1 + title.len() as int) =~= title);
    assert(d.subrange(pl + 1, pl + 1 + title.len()) =~= heading.subrange(1, 1 + title.len() as int));
    assert(dt.subrange(pl + 1, pl + 1 + title.len()) =~= dt.take(k).subrange(
        pl + 1,
        pl + 1 + title.len(),
    ));
    assert(d.subrange(pl + 1, pl + 1 + title.len()) =~= d.take(k).subrange(
        pl + 1,
        pl + 1 + title.len(),
    ));
    assert(dt.subrange(pl + 1, pl + 1 + title.len()) =~= title);
    assert(t.subrange(prefix_len + pl + 1, prefix_len + pl + 1 + title.len())
        =~= title);
    lemma_contains_at(t, title, prefix_len + pl + 1);
    // The text of AGENTS.md survives up to its last character that is not whitespace.
    let ta = trim_end_ws(a);
    lemma_trim_end_shape(a);
    if ta.len() > 0 {
        let k2: int = pl + heading.len() + ta.len();
        assert(d[k2 - 1] == ta.last());
        lemma_trim_end_keeps_prefix(d, k2);
        let j: int = pl + heading.len();
        assert(ta =~= a.take(ta.len() as int));
        assert(d.subrange(j, j + ta.len()) =~= ta);
        assert(dt.subrange(j, j + ta.len()) =~= dt.take(k2).subrange(j, j + ta.len()));
        assert(d.subrange(j, j + ta.len()) =~= d.take(k2).subrange(j, j + ta.len()));
        assert(dt.subrange(j, j + ta.len()) =~= ta);
        assert(t.subrange(prefix_len + j, prefix_len + j + ta.len()) =~= ta);
        lemma_contains_at(t, ta, prefix_len + j);
    } else {
        assert(t.subrange(0, 0) =~= ta);
        lemma_contains_at(t, ta, 0);
    }
}

/// The length of what comes before the dynamic part in the system prompt.
pub open spec fn prompt_head_len(static_prompt: Seq<char>) -> int {
    (trim_ws(static_prompt).len() + "\n\n"@.len() + BOUNDARY@.len() + "\n\n"@.len()) as int
}

/// Any text in the dynamic part that ends at or before a character that is
/// not whitespace appears in the system prompt.
proof fn lemma_dynamic_text_in_prompt(
    static_prompt: Seq<char>,
    c: PromptContextView,
    k: int,
    a: int,
    x: Seq<char>,
)
    requires
        0 < k <= dynamic_part(c).len(),
        !is_ws(dynamic_part(c)[k - 1]),
        0 <= a,
        a + x.len() <= k,
        dynamic_part(c).subrange(a, a + x.len()) == x,
    ensures
        contains_seq(system_prompt_text(static_prompt, c), x),
{
    let d = dynamic_part(c);
    lemma_dynamic_starts_clean(c);
    let dt = trim_ws(d);
    assert(dt == trim_end_ws(d));
    lemma_trim_end_keeps_prefix(d, k);
    let t = system_prompt_text(static_prompt, c);
    let pl = prompt_head_len(static_prompt);
    assert(t =~= (trim_ws(static_prompt) + "\n\n"@ + BOUNDARY@ + "\n\n"@) + dt);
    assert(dt.subrange(a, a + x.len()) =~= dt.take(k).subrange(a, a + x.len()));
    assert(d.subrange(a, a + x.len()) =~= d.take(k).subrange(a, a + x.len()));
    assert(t.subrange(pl + a, pl + a + x.len()) =~= x);
    lemma_contains_at(t, x, pl + a);
}

/// The system prompt holds the environment: the working directory and the
/// project's name under "# Environment", and the project's kind (without
/// trailing whitespace) after "- Project Type: ".
pub proof fn law_prompt_has_environment(static_prompt: Seq<char>, c: PromptContextView)
    ensures
        contains_seq(
            system_prompt_text(static_prompt, c),
            "# Environment\n- Working Directory: "@ + c.cwd + "\n- Project: "@ + c.project_name,
        ),
        trim_end_ws(c.project_type).len() > 0 ==> contains_seq(
            system_prompt_text(static_prompt, c),
            "\n- Project Type: "@ + trim_end_ws(c.project_type),
        ),
{
    reveal_strlit("\n- Project Type: ");
    let x = "# Environment\n- Working Directory: "@ + c.cwd + "\n- Project: "@ + c.project_name;
    let ty = "\n- Project Type: "@;
    let d = dynamic_part(c);
    assert(d =~= x + ty + c.project_type + "\n"@ + summary_section(c) + agents_section(c));
    let xl = x.len() as int;
    assert(d[xl + 15] == ':');
    assert(d.subrange(0, xl) =~= x);
    lemma_dynamic_text_in_prompt(static_prompt, c, xl + 16, 0, x);
    let tp = trim_end_ws(c.project_type);
    lemma_trim_end_shape(c.project_type);
    if tp.len() > 0 {
        let y = ty + tp;
        let k = xl + ty.len() + tp.len();
        assert(d[k - 1] == tp.last());
        assert(d.subrange(xl, xl + y.len()) =~= y);
        lemma_dynamic_text_in_prompt(static_prompt, c, k, xl, y);
    }
}

/// A project summary always has its section in the system prompt, whether
/// or not there is an AGENTS.md: the heading, then the summary (without
/// trailing whitespace) right after it. Without a summary the dynamic part
/// is the environment followed by the AGENTS.md section alone.
pub proof fn law_prompt_has_summary(static_prompt: Seq<char>, c: PromptContextView)
    ensures
        c.project_summary.len() > 0 ==> contains_seq(
            system_prompt_text(static_prompt, c),
            "\n# Project Summary"@,
        ),
        trim_end_ws(c.project_summary).len() > 0 ==> contains_seq(
            system_prompt_text(static_prompt, c),
            "\n# Project Summary\n"@ + trim_end_ws(c.project_summary),
        ),
        c.project_summary.len() == 0 ==> dynamic_part(c) == environment_section(c)
            + agents_section(c),
{
    reveal_strlit("\n# Project Summary\n");
    reveal_strlit("\n# Project Summary");
    let sm = c.project_summary;
    let h = "\n# Project Summary\n"@;
    let h0 = "\n# Project Summary"@;
    let e = environment_section(c);
    let el = e.len() as int;
    let d = dynamic_part(c);
    if sm.len() > 0 {
        assert(d =~= e + h + sm + "\n"@ + agents_section(c));
        assert(d[el + h0.len() - 1] == 'y');
        assert(d.subrange(el, el + h0.len()) =~= h0);
        lemma_dynamic_text_in_prompt(static_prompt, c, el + h0.len(), el, h0);
        let ts = trim_end_ws(sm);
        lemma_trim_end_shape(sm);
        if ts.len() > 0 {
            let y = h + ts;
            let k = el + h.len() + ts.len();
            assert(ts =~= sm.take(ts.len() as int));
            assert(d[k - 1] == ts.last());
            assert(d.subrange(el, el + y.len()) =~= y);
            lemma_dynamic_text_in_prompt(static_prompt, c, k, el, y);
        }
    } else {
        assert(d =~= e + agents_section(c));
    }
}

/// The context of a directory holds the directory's path, its detected
/// name and kind, the README's first 500 characters (nothing without a
/// README) and AGENTS.md as it is.
pub proof fn law_context_of(cwd: Seq<char>, files: ProjectFiles)
    ensures
        context_of(cwd, files).cwd == cwd,
        context_of(cwd, files).project_name == project_name(files),
        context_of(cwd, files).project_type == project_type(files),
        context_of(cwd, files).agents_md == opt_view(files.agents_md),
        files.readme is None ==> context_of(cwd, files).project_summary.len() == 0,
        files.readme matches Some(r) ==> has_prefix(r@, context_of(cwd, files).project_summary)
            && context_of(cwd, files).project_summary.len() == if r@.len() <= 500 {
            r@.len()
        } else {
            500
        },
{
    if let Some(r) = files.readme {
        crate::utils::law_take_chars(r@, 500);
    }
}


/// Trailing whitespace is dropped from the end of `x + y` only, when `y`
/// is not all whitespace.
proof fn lemma_trim_end_concat(x: Seq<char>, y: Seq<char>)
    requires
        trim_end_ws(y).len() > 0,
    ensures
        trim_end_ws(x + y) == x + trim_end_ws(y),
    decreases y.len(),
{
    if y.len() > 0 && is_ws(y.last()) {
        assert((x + y).drop_last() =~= x + y.drop_last());
        lemma_trim_end_concat(x, y.drop_last());
    } else {
        assert(y.len() > 0);
        assert((x + y).last() == y.last());
    }
}

/// The system prompt is laid out in order: the trimmed static part, a
/// blank line, the boundary, a blank line, the environment, then the
/// project summary when there is one, then AGENTS.md when there is one;
/// only the whitespace at the very end is dropped.
pub proof fn law_prompt_layout(static_prompt: Seq<char>, c: PromptContextView)
    ensures
        ({
            let head = trim_ws(static_prompt) + "\n\n"@ + BOUNDARY@ + "\n\n"@;
            let env = "# Environment\n- Working Directory: "@ + c.cwd + "\n- Project: "@
                + c.project_name + "\n- Project Type: "@;
            let t = system_prompt_text(static_prompt, c);
            &&& (c.agents_md is Some && trim_end_ws(c.agents_md->0).len() > 0) ==> t == head + env
                + c.project_type + "\n"@ + summary_section(c)
                + "\n# project instructions(agents.md)\n"@ + trim_end_ws(c.agents_md->0)
            &&& (c.agents_md is None && c.project_summary.len() > 0 && trim_end_ws(
                c.project_summary,
            ).len() > 0) ==> t == head + env + c.project_type + "\n"@ + "\n# Project Summary\n"@
                + trim_end_ws(c.project_summary)
            &&& (c.agents_md is None && c.project_summary.len() == 0 && trim_end_ws(
                c.project_type,
            ).len() > 0) ==> t == head + env + trim_end_ws(c.project_type)
        }),
{
    let head = trim_ws(static_prompt) + "\n\n"@ + BOUNDARY@ + "\n\n"@;
    let env = "# Environment\n- Working Directory: "@ + c.cwd + "\n- Project: "@ + c.project_name
        + "\n- Project Type: "@;
    let d = dynamic_part(c);
    lemma_dynamic_starts_clean(c);
    assert(trim_ws(d) == trim_end_ws(d));
    let nl = "\n"@;
    reveal_strlit("\n");
    if let Some(a) = c.agents_md {
        if trim_end_ws(a).len() > 0 {
            let x = environment_section(c) + summary_section(c)
                + "\n# project instructions(agents.md)\n"@;
            assert(nl.len() == 1 && is_ws(nl.last()));
            assert((a + nl).drop_last() =~= a);
            assert(trim_end_ws(a + nl) == trim_end_ws(a));
            assert(d =~= x + (a + nl));
            lemma_trim_end_concat(x, a + nl);
            assert(system_prompt_text(static_prompt, c) =~= head + env + c.project_type + nl
                + summary_section(c) + "\n# project instructions(agents.md)\n"@ + trim_end_ws(a));
        }
    } else {
        let sm = c.project_summary;
        if sm.len() > 0 && trim_end_ws(sm).len() > 0 {
            let x = environment_section(c) + "\n# Project Summary\n"@;
            assert((sm + nl).drop_last() =~= sm);
            assert(trim_end_ws(sm + nl) == trim_end_ws(sm));
            assert(d =~= x + (sm + nl));
            lemma_trim_end_concat(x, sm + nl);
            assert(system_prompt_text(static_prompt, c) =~= head + env + c.project_type + nl
                + "\n# Project Summary\n"@ + trim_end_ws(sm));
        }
        let ty = c.project_type;
        if sm.len() == 0 && trim_end_ws(ty).len() > 0 {
            assert((ty + nl).drop_last() =~= ty);
            assert(trim_end_ws(ty + nl) == trim_end_ws(ty));
            assert(d =~= env + (ty + nl));
            lemma_trim_end_concat(env, ty + nl);
            assert(system_prompt_text(static_prompt, c) =~= head + env + trim_end_ws(ty));
        }
    }
}

} // verus!

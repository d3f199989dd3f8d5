//! Rendering: one text block per plugin, in configured order, regardless of
//! the order outcomes arrived in, under a single fixed header line. The
//! literal separator and color tokens are a wire contract with the menu-bar
//! host and must be reproduced verbatim.

use crate::config::Config;
use crate::config::PluginConfig;
use crate::error::CliError;
use crate::error::error_text;
use crate::exec::ExecutionResult;
use vstd::prelude::*;

verus! {

/// The lines of `s`: `s` split on the newline character. Splitting never
/// yields an empty sequence; text without a newline is one single line.
pub open spec fn split_lines(s: Seq<char>) -> Seq<Seq<char>>
    decreases s.len(),
{
    if s.len() == 0 {
        seq![Seq::<char>::empty()]
    } else if s[0] == '\n' {
        seq![Seq::<char>::empty()] + split_lines(s.drop_first())
    } else {
        let rest = split_lines(s.drop_first());
        seq![seq![s[0]] + rest[0]] + rest.drop_first()
    }
}

/// The given lines joined back into one text, a newline between neighbours.
pub open spec fn join_lines(lines: Seq<Seq<char>>) -> Seq<char>
    decreases lines.len(),
{
    if lines.len() == 0 {
        Seq::empty()
    } else if lines.len() == 1 {
        lines[0]
    } else {
        lines[0] + seq!['\n'] + join_lines(lines.drop_first())
    }
}

/// The sub-menu lines of `s`: its non-empty lines, each prefixed with two
/// dashes.
pub open spec fn sub_menu_lines(s: Seq<char>) -> Seq<Seq<char>> {
    split_lines(s).filter(|l: Seq<char>| l.len() > 0).map_values(|l: Seq<char>| "--"@ + l)
}

/// The sub-menu form of one captured stream: its non-empty lines, each
/// prefixed with two dashes, joined with newlines.
pub open spec fn sub_menu_text(s: Seq<char>) -> Seq<char> {
    join_lines(sub_menu_lines(s))
}

/// What one captured stream contributes to its plugin's block: unchanged
/// normally, in sub-menu form when the plugin asks for one.
pub open spec fn shown_text(s: Seq<char>, show_in_sub_menu: bool) -> Seq<char> {
    if show_in_sub_menu {
        sub_menu_text(s)
    } else {
        s
    }
}

/// Splitting a text that holds no newline gives that text as its one line.
proof fn lemma_split_no_newline(s: Seq<char>)
    requires
        forall|k: int| 0 <= k < s.len() ==> s[k] != '\n',
    ensures
        split_lines(s) =~~= seq![s],
    decreases s.len(),
{
    if s.len() == 0 {
        assert(s =~= Seq::<char>::empty());
    } else {
        assert(forall|k: int| 0 <= k < s.drop_first().len() ==> s.drop_first()[k] != '\n');
        lemma_split_no_newline(s.drop_first());
        assert(seq![s[0]] + s.drop_first() =~= s);
    }
}

/// Splitting at the first newline: a newline-free prefix becomes the first
/// line, and the remainder splits on its own.
proof fn lemma_split_at_newline(line: Seq<char>, rest: Seq<char>)
    requires
        forall|k: int| 0 <= k < line.len() ==> line[k] != '\n',
    ensures
        split_lines(line + seq!['\n'] + rest) =~~= seq![line] + split_lines(rest),
    decreases line.len(),
{
    let s = line + seq!['\n'] + rest;
    if line.len() == 0 {
        assert(s[0] == '\n');
        assert(s.drop_first() =~= rest);
        assert(line =~= Seq::<char>::empty());
    } else {
        assert(s[0] == line[0]);
        assert(s[0] != '\n');
        assert(s.drop_first() =~= line.drop_first() + seq!['\n'] + rest);
        assert(forall|k: int|
            0 <= k < line.drop_first().len() ==> line.drop_first()[k] != '\n');
        lemma_split_at_newline(line.drop_first(), rest);
        let r = split_lines(s.drop_first());
        assert(r =~~= seq![line.drop_first()] + split_lines(rest));
        assert(seq![s[0]] + r[0] =~= line);
        assert(r.drop_first() =~~= split_lines(rest));
    }
}

/// Filtering a single line keeps it exactly when it is non-empty.
proof fn lemma_filter_singleton(x: Seq<char>)
    ensures
        seq![x].filter(|l: Seq<char>| l.len() > 0) == (if x.len() > 0 {
            seq![x]
        } else {
            Seq::<Seq<char>>::empty()
        }),
{
    reveal_with_fuel(Seq::<_>::filter, 3);
    let pred = |l: Seq<char>| l.len() > 0;
    assert(seq![x].drop_last() =~~= Seq::<Seq<char>>::empty());
    if x.len() > 0 {
        assert(seq![x].filter(pred) =~~= seq![x]);
    } else {
        assert(seq![x].filter(pred) =~~= Seq::<Seq<char>>::empty());
    }
}

/// The sub-menu lines of a text that begins with a newline-free line: that
/// line (kept and prefixed only if non-empty) before the rest's own lines.
proof fn lemma_sub_menu_lines_step(line: Seq<char>, rest: Seq<char>)
    requires
        forall|k: int| 0 <= k < line.len() ==> line[k] != '\n',
    ensures
        sub_menu_lines(line + seq!['\n'] + rest) =~~= (if line.len() > 0 {
            seq!["--"@ + line]
        } else {
            Seq::<Seq<char>>::empty()
        }) + sub_menu_lines(rest),
{
    let pred = |l: Seq<char>| l.len() > 0;
    let prefix = |l: Seq<char>| "--"@ + l;
    lemma_split_at_newline(line, rest);
    assert(split_lines(line + seq!['\n'] + rest).filter(pred) == (seq![line] + split_lines(
        rest,
    )).filter(pred));
    Seq::<Seq<char>>::filter_distributes_over_add(seq![line], split_lines(rest), pred);
    lemma_filter_singleton(line);
    assert(sub_menu_lines(line + seq!['\n'] + rest) =~~= (seq![line].filter(pred) + split_lines(
        rest,
    ).filter(pred)).map_values(prefix));
    assert((seq![line].filter(pred) + split_lines(rest).filter(pred)).map_values(prefix) =~~= seq![
        line,
    ].filter(pred).map_values(prefix) + split_lines(rest).filter(pred).map_values(prefix));
}

/// The sub-menu lines of a newline-free text: the text itself, prefixed,
/// when it is non-empty, and nothing otherwise.
proof fn lemma_sub_menu_lines_single(line: Seq<char>)
    requires
        forall|k: int| 0 <= k < line.len() ==> line[k] != '\n',
    ensures
        sub_menu_lines(line) =~~= (if line.len() > 0 {
            seq!["--"@ + line]
        } else {
            Seq::<Seq<char>>::empty()
        }),
{
    let pred = |l: Seq<char>| l.len() > 0;
    lemma_split_no_newline(line);
    lemma_filter_singleton(line);
    assert(split_lines(line).filter(pred) == seq![line].filter(pred));
}

/// Every sub-menu line starts with the two-dash prefix, so it is non-empty.
proof fn lemma_sub_menu_lines_nonempty(s: Seq<char>)
    ensures
        forall|k: int| 0 <= k < sub_menu_lines(s).len() ==> (#[trigger] sub_menu_lines(s)[k]).len()
            > 0,
{
    reveal_strlit("--");
}

/// Joining lines whose first line is non-empty gives a non-empty text.
proof fn lemma_join_head_nonempty(lines: Seq<Seq<char>>)
    requires
        lines.len() > 0,
        lines[0].len() > 0,
    ensures
        join_lines(lines).len() > 0,
{
}

/// Renders one captured stream in sub-menu form: each non-empty line
/// prefixed with two dashes, joined with newlines.
fn sub_menu_render(input: &str) -> (r: String)
    ensures
        r@ == sub_menu_text(input@),
    decreases input@.len(),
{
    let n = input.unicode_len();
    if n == 0 {
        proof {
            lemma_sub_menu_lines_single(input@);
        }
        return String::new();
    }
    let mut i: usize = 0;
    while i < n && input.get_char(i) != '\n'
        invariant
            n == input@.len(),
            0 <= i <= n,
            forall|k: int| 0 <= k < i ==> input@[k] != '\n',
        decreases n - i,
    {
        i = i + 1;
    }
    if i == n {
        // no newline: the whole input is one non-empty line
        proof {
            lemma_sub_menu_lines_single(input@);
        }
        let mut out = String::from_str("--");
        out.append(input);
        return out;
    }
    let line = input.substring_char(0, i);
    let rest = input.substring_char(i + 1, n);
    proof {
        assert(input@[i as int] == '\n');
        assert(input@ =~= line@ + seq!['\n'] + rest@);
        lemma_sub_menu_lines_step(line@, rest@);
        lemma_sub_menu_lines_nonempty(rest@);
    }
    let rendered_rest = sub_menu_render(rest);
    if i == 0 {
        // empty first line: it contributes nothing
        proof {
            assert(sub_menu_lines(input@) =~~= sub_menu_lines(rest@));
        }
        return rendered_rest;
    }
    let mut out = String::from_str("--");
    out.append(line);
    if rendered_rest.as_str().is_empty() {
        // nothing followed: the rest held no non-empty line
        proof {
            if sub_menu_lines(rest@).len() > 0 {
                lemma_join_head_nonempty(sub_menu_lines(rest@));
            }
            assert(sub_menu_lines(input@) =~~= seq!["--"@ + line@]);
        }
        return out;
    }
    proof {
        assert(sub_menu_lines(input@).drop_first() =~~= sub_menu_lines(rest@));
    }
    out.append("\n");
    out.append(rendered_rest.as_str());
    proof {
        assert(seq!['\n'] =~= "\n"@) by {
            reveal_strlit("\n");
        }
    }
    out
}

/// The position of the first outcome carrying the given plugin name.
pub open spec fn match_index(results: Seq<ExecutionResult>, name: Seq<char>) -> int
    decreases results.len(),
{
    if results.len() == 0 {
        0
    } else if results[0].plugin@ == name {
        0
    } else {
        1 + match_index(results.drop_first(), name)
    }
}

/// Whether some outcome carries the given plugin name.
pub open spec fn has_match(results: Seq<ExecutionResult>, name: Seq<char>) -> bool {
    exists|j: int| 0 <= j < results.len() && (#[trigger] results[j]).plugin@ == name
}

/// With a match present, the first-match position is a real position, it
/// matches, and nothing before it does.
pub proof fn lemma_match_index(results: Seq<ExecutionResult>, name: Seq<char>)
    requires
        has_match(results, name),
    ensures
        0 <= match_index(results, name) < results.len(),
        results[match_index(results, name)].plugin@ == name,
        forall|k: int|
            0 <= k < match_index(results, name) ==> (#[trigger] results[k]).plugin@ != name,
    decreases results.len(),
{
    if results[0].plugin@ == name {
    } else {
        let j = choose|j: int| 0 <= j < results.len() && (#[trigger] results[j]).plugin@ == name;
        assert(results.drop_first()[j - 1].plugin@ == name);
        lemma_match_index(results.drop_first(), name);
        let m = match_index(results, name);
        assert forall|k: int| 0 <= k < m implies (#[trigger] results[k]).plugin@ != name by {
            if k > 0 {
                assert(results.drop_first()[k - 1].plugin@ != name);
            }
        }
    }
}

/// A matching position with no match before it is the first-match position.
proof fn lemma_match_index_unique(results: Seq<ExecutionResult>, name: Seq<char>, j: int)
    requires
        0 <= j < results.len(),
        results[j].plugin@ == name,
        forall|k: int| 0 <= k < j ==> (#[trigger] results[k]).plugin@ != name,
    ensures
        match_index(results, name) == j,
    decreases results.len(),
{
    if j == 0 {
    } else {
        assert(results.drop_first()[j - 1].plugin@ == name);
        assert forall|k: int|
            0 <= k < j - 1 implies (#[trigger] results.drop_first()[k]).plugin@ != name by {
            assert(results[k + 1].plugin@ != name);
        }
        lemma_match_index_unique(results.drop_first(), name, j - 1);
    }
}

/// The one fixed header block.
pub open spec fn header_text() -> Seq<char> {
    "Bit | color=orange"@
}

/// The separator that precedes raw (non-sub-menu) block content.
pub open spec fn content_lead(show_in_sub_menu: bool) -> Seq<char> {
    if show_in_sub_menu {
        Seq::empty()
    } else {
        "---\n"@
    }
}

/// The body of one plugin's block: its two shown streams, stdout before
/// stderr, on success; the red failure line otherwise.
pub open spec fn body_text(p: PluginConfig, r: ExecutionResult) -> Seq<char> {
    match r.result {
        Ok(out) => shown_text(out.stdout@, p.show_in_sub_menu) + shown_text(
            out.stderr@,
            p.show_in_sub_menu,
        ),
        Err(e) => "Error: "@ + error_text(e) + " | color=red"@,
    }
}

/// One plugin's whole block: the separator, the green title line, then the
/// body behind its lead separator.
pub open spec fn block_text(p: PluginConfig, r: ExecutionResult) -> Seq<char> {
    "---\n"@ + p.display_name@ + " | color=green\n"@ + content_lead(p.show_in_sub_menu)
        + body_text(p, r)
}

/// Renders one plugin's block from its outcome.
fn render_block(plugin_config: &PluginConfig, result: &ExecutionResult) -> (r: String)
    ensures
        r@ == block_text(*plugin_config, *result),
{
    let mut out = String::from_str("---\n");
    out.append(plugin_config.display_name.as_str());
    out.append(" | color=green\n");
    if !plugin_config.show_in_sub_menu {
        out.append("---\n");
    }
    match &result.result {
        Ok(output) => {
            let shown_stdout = Formatter::show_in_sub_menu_if_needed(output.stdout.as_str(), plugin_config);
            out.append(shown_stdout.as_str());
            let shown_stderr = Formatter::show_in_sub_menu_if_needed(output.stderr.as_str(), plugin_config);
            out.append(shown_stderr.as_str());
        },
        Err(e) => {
            out.append("Error: ");
            let description = e.describe();
            out.append(description.as_str());
            out.append(" | color=red");
        },
    }
    proof {
        assert(out@ =~= block_text(*plugin_config, *result));
    }
    out
}

/// Renders outcomes as ordered text blocks, one per configured plugin.
pub struct Formatter<'a> {
    pub config: &'a Config,
}

/// A formatter over the given configuration.
pub fn new<'a>(config: &'a Config) -> (f: Formatter<'a>)
    ensures
        f.config == config,
{
    Formatter { config }
}

impl Formatter<'_> {
    /// Applies the plugin's rendering choice to one captured stream: the
    /// text unchanged, or its sub-menu form when the plugin asks for one.
    pub fn show_in_sub_menu_if_needed(input: &str, plugin_config: &PluginConfig) -> (r: String)
        ensures
            r@ == shown_text(input@, plugin_config.show_in_sub_menu),
    {
        if input.is_empty() {
            // an empty stream contributes nothing under either rendering
            proof {
                assert(input@ =~= Seq::<char>::empty());
                lemma_sub_menu_lines_single(input@);
                assert(sub_menu_text(input@) =~= Seq::<char>::empty());
            }
            return String::new();
        }
        if !plugin_config.show_in_sub_menu {
            return String::from_str(input);
        }
        sub_menu_render(input)
    }

    /// One block per plugin, in configured order, behind the fixed header;
    /// each plugin is joined to the first outcome carrying its name,
    /// wherever in the collection that outcome sits.
    pub fn format(&self, execution_results: Vec<ExecutionResult>) -> (r: Vec<String>)
        requires
            forall|i: int|
                0 <= i < self.config.plugins@.len() ==> has_match(
                    execution_results@,
                    (#[trigger] self.config.plugins@[i]).display_name@,
                ),
        ensures
            r@.len() == self.config.plugins@.len() + 1,
            r@[0]@ == header_text(),
            forall|i: int|
                0 <= i < self.config.plugins@.len() ==> (#[trigger] r@[i + 1])@ == block_text(
                    self.config.plugins@[i],
                    execution_results@[match_index(
                        execution_results@,
                        self.config.plugins@[i].display_name@,
                    )],
                ),
    {
        let mut output: Vec<String> = Vec::new();
        output.push(String::from_str("Bit | color=orange"));
        let n = self.config.plugins.len();
        let m = execution_results.len();
        let mut i: usize = 0;
        while i < n
            invariant
                n == self.config.plugins@.len(),
                m == execution_results@.len(),
                0 <= i <= n,
                forall|t: int|
                    0 <= t < n ==> has_match(
                        execution_results@,
                        (#[trigger] self.config.plugins@[t]).display_name@,
                    ),
                output@.len() == i + 1,
                output@[0]@ == header_text(),
                forall|k: int|
                    0 <= k < i ==> (#[trigger] output@[k + 1])@ == block_text(
                        self.config.plugins@[k],
                        execution_results@[match_index(
                            execution_results@,
                            self.config.plugins@[k].display_name@,
                        )],
                    ),
            decreases n - i,
        {
            let plugin_config = &self.config.plugins[i];
            let mut j: usize = 0;
            while j < m && !(execution_results[j].plugin == plugin_config.display_name)
                invariant
                    m == execution_results@.len(),
                    0 <= j <= m,
                    forall|k: int|
                        0 <= k < j ==> (#[trigger] execution_results@[k]).plugin@
                            != plugin_config.display_name@,
                decreases m - j,
            {
                j = j + 1;
            }
            proof {
                assert(has_match(execution_results@, plugin_config.display_name@));
                if j == m {
                    let w = choose|w: int|
                        0 <= w < execution_results@.len() && (#[trigger] execution_results@[w]).plugin@
                            == plugin_config.display_name@;
                    assert(false);
                }
                lemma_match_index_unique(
                    execution_results@,
                    plugin_config.display_name@,
                    j as int,
                );
            }
            let block = render_block(plugin_config, &execution_results[j]);
            output.push(block);
            i = i + 1;
        }
        output
    }
}

/// Order preservation, one name at a time: with pairwise-distinct outcome
/// names, any reordering of the outcome collection joins a name to the very
/// same outcome.
pub proof fn lemma_match_order_independent(
    r1: Seq<ExecutionResult>,
    r2: Seq<ExecutionResult>,
    name: Seq<char>,
)
    requires
        r1.to_multiset() == r2.to_multiset(),
        forall|j: int, k: int|
            0 <= j < k < r1.len() ==> (#[trigger] r1[j]).plugin@ != (#[trigger] r1[k]).plugin@,
        has_match(r1, name),
    ensures
        has_match(r2, name),
        r1[match_index(r1, name)] == r2[match_index(r2, name)],
{
    broadcast use vstd::seq_lib::group_to_multiset_ensures;

    lemma_match_index(r1, name);
    let e = r1[match_index(r1, name)];
    assert(r1.contains(e));
    assert(r1.to_multiset().count(e) > 0);
    assert(r2.to_multiset().count(e) > 0);
    assert(r2.contains(e));
    let w = choose|w: int| 0 <= w < r2.len() && r2[w] == e;
    assert(r2[w].plugin@ == name);
    assert(has_match(r2, name));
    lemma_match_index(r2, name);
    let e2 = r2[match_index(r2, name)];
    assert(r2.contains(e2));
    assert(r2.to_multiset().count(e2) > 0);
    assert(r1.to_multiset().count(e2) > 0);
    assert(r1.contains(e2));
    let k = choose|k: int| 0 <= k < r1.len() && r1[k] == e2;
    assert(r1[k].plugin@ == name);
    assert(k == match_index(r1, name));
}

/// Order preservation: the formatter's blocks are unchanged by any
/// reordering of the outcome collection, as long as outcome names are
/// pairwise distinct.
pub proof fn lemma_format_order_independent(
    plugins: Seq<PluginConfig>,
    r1: Seq<ExecutionResult>,
    r2: Seq<ExecutionResult>,
)
    requires
        r1.to_multiset() == r2.to_multiset(),
        forall|j: int, k: int|
            0 <= j < k < r1.len() ==> (#[trigger] r1[j]).plugin@ != (#[trigger] r1[k]).plugin@,
        forall|i: int|
            0 <= i < plugins.len() ==> has_match(r1, (#[trigger] plugins[i]).display_name@),
    ensures
        forall|i: int|
            0 <= i < plugins.len() ==> has_match(r2, (#[trigger] plugins[i]).display_name@),
        forall|i: int|
            0 <= i < plugins.len() ==> block_text(
                #[trigger] plugins[i],
                r1[match_index(r1, plugins[i].display_name@)],
            ) == block_text(plugins[i], r2[match_index(r2, plugins[i].display_name@)]),
{
    assert forall|i: int| 0 <= i < plugins.len() implies has_match(
        r2,
        (#[trigger] plugins[i]).display_name@,
    ) && block_text(plugins[i], r1[match_index(r1, plugins[i].display_name@)]) == block_text(
        plugins[i],
        r2[match_index(r2, plugins[i].display_name@)],
    ) by {
        lemma_match_order_independent(r1, r2, plugins[i].display_name@);
    }
}

} // verus!


//! The recipe patcher: one forward pass over the lines of a build recipe
//! that marks the package as modified, points its source entry at the chosen
//! reference and lets the version step see the upstream tags.
//!
//! The pass reads the lines of the recipe as they were, and writes into a
//! growing copy at the position where the line read stands in that copy: its
//! index plus the number of lines inserted before it. The rules of one line
//! work on the copy one after the other, so a marker that a line has just
//! got stands between that line and the lines that its other rules look at.
//! This coupling is fragile.
//!
//! The patterns are searched for first, line by line; the pass itself works
//! on lines that carry the answers.

use vstd::prelude::*;
use vstd::string::StringExecFns;
use crate::lines::{concat_lines, join_lines, lemma_lines_concat, lines_of, split_lines, texts};
use crate::pattern::{pattern_compiles, pattern_matches, search};

verus! {

/// Pattern of a license declaration.
pub open spec fn license_pattern() -> Seq<char> {
    r"license=\(.*\)"@
}

/// Pattern of a source declaration.
pub open spec fn source_pattern() -> Seq<char> {
    r"source=\(.*\)"@
}

/// Pattern of a change into the project's directory.
pub open spec fn cd_pattern() -> Seq<char> {
    r".*cd qtile"@
}

/// Pattern of a version query.
pub open spec fn describe_pattern() -> Seq<char> {
    r".*git describe"@
}

/// The line that marks the package as modified.
pub open spec fn groups_line() -> Seq<char> {
    "groups=('modified')\n"@
}

/// The line that adds the canonical upstream as a second remote.
pub open spec fn remote_line() -> Seq<char> {
    "  git remote add upstream https://github.com/qtile/qtile.git\n"@
}

/// The line that fetches all tags from that remote, overwriting local ones.
pub open spec fn fetch_line() -> Seq<char> {
    "  git fetch upstream --tags --force\n"@
}

/// The source entry for a reference.
pub open spec fn source_entry(source: Seq<char>) -> Seq<char> {
    "source=('git+"@ + source + "')\n"@
}

/// All four patterns compile.
pub open spec fn patterns_compile() -> bool {
    &&& pattern_compiles(license_pattern())
    &&& pattern_compiles(source_pattern())
    &&& pattern_compiles(cd_pattern())
    &&& pattern_compiles(describe_pattern())
}

/// Why a recipe could not be patched.
#[derive(Clone, Copy, Debug, PartialEq, Eq, Structural)]
pub enum RecipeError {
    /// One of the patterns was refused by the expression compiler.
    Pattern,
    /// A source declaration or a directory change stands too close to the end
    /// of the recipe: the line that the rule reads or replaces is missing.
    Truncated,
}

/// A line together with what the four patterns say of it.
#[derive(Debug, PartialEq, Eq)]
pub struct MarkedLine {
    /// The line, with its terminator.
    pub text: String,
    /// It declares the license.
    pub license: bool,
    /// It declares the source.
    pub source: bool,
    /// It changes into the project's directory.
    pub cd: bool,
    /// It queries the version.
    pub describe: bool,
}

/// The mathematical value of a marked line.
pub struct LineModel {
    pub text: Seq<char>,
    pub license: bool,
    pub source: bool,
    pub cd: bool,
    pub describe: bool,
}

impl View for MarkedLine {
    type V = LineModel;

    open spec fn view(&self) -> LineModel {
        LineModel {
            text: self.text@,
            license: self.license,
            source: self.source,
            cd: self.cd,
            describe: self.describe,
        }
    }
}

/// The lines that the pass writes, marked like the lines it reads.
#[derive(Debug, PartialEq, Eq)]
pub struct Inserts {
    /// The marker that follows a license declaration.
    pub groups: MarkedLine,
    /// The source entry that replaces the line after a source declaration.
    pub entry: MarkedLine,
    /// The first line before a version query: it adds the upstream remote.
    pub remote: MarkedLine,
    /// The second line before a version query: it fetches the tags.
    pub fetch: MarkedLine,
}

/// The mathematical value of the lines that the pass writes.
pub struct InsertsModel {
    pub groups: LineModel,
    pub entry: LineModel,
    pub remote: LineModel,
    pub fetch: LineModel,
}

impl View for Inserts {
    type V = InsertsModel;

    open spec fn view(&self) -> InsertsModel {
        InsertsModel {
            groups: self.groups@,
            entry: self.entry@,
            remote: self.remote@,
            fetch: self.fetch@,
        }
    }
}

/// The values of a vector of marked lines, in order.
pub open spec fn models(v: Seq<MarkedLine>) -> Seq<LineModel> {
    Seq::new(v.len(), |i: int| v[i]@)
}

/// The texts of marked lines, in order.
pub open spec fn model_texts(v: Seq<LineModel>) -> Seq<Seq<char>> {
    Seq::new(v.len(), |i: int| v[i].text)
}

/// What the rules make of the growing copy `live` when the pass reads `line`,
/// which stands at position `p` of the copy; `None` where a rule reaches past
/// the end.
///
/// A license declaration gets the marker as the line at `p + 1`. A source
/// declaration has the line at `p + 1` replaced by the source entry. A
/// directory change gets the two upstream lines at `p + 1` and `p + 2`,
/// provided that the line at `p + 2` queries the version. Each rule works on
/// the copy as the rules before it left it.
pub open spec fn rule_step(live: Seq<LineModel>, line: LineModel, p: int, ins: InsertsModel)
    -> Option<Seq<LineModel>> {
    let marked = if line.license {
        live.insert(p + 1, ins.groups)
    } else {
        live
    };
    if line.source && p + 1 >= marked.len() {
        None
    } else {
        let pointed = if line.source {
            marked.update(p + 1, ins.entry)
        } else {
            marked
        };
        if !line.cd {
            Some(pointed)
        } else if p + 2 >= pointed.len() {
            None
        } else if pointed[p + 2].describe {
            Some(pointed.insert(p + 1, ins.remote).insert(p + 2, ins.fetch))
        } else {
            Some(pointed)
        }
    }
}

/// Where line `i` of `recipe` stands in the copy `live`: at its index plus
/// the number of lines inserted so far.
pub open spec fn position_in(recipe: Seq<LineModel>, live: Seq<LineModel>, i: int) -> int {
    i + (live.len() - recipe.len())
}

/// The pass from index `i` of `recipe` on, with `live` as the copy so far.
pub open spec fn rules_from(
    recipe: Seq<LineModel>,
    live: Seq<LineModel>,
    i: int,
    ins: InsertsModel,
) -> Option<Seq<LineModel>>
    decreases recipe.len() - i,
{
    if i >= recipe.len() {
        Some(live)
    } else {
        match rule_step(live, recipe[i], position_in(recipe, live, i), ins) {
            None => None,
            Some(next) => rules_from(recipe, next, i + 1, ins),
        }
    }
}

/// The whole pass over a recipe.
pub open spec fn rules_applied(recipe: Seq<LineModel>, ins: InsertsModel) -> Option<
    Seq<LineModel>,
> {
    rules_from(recipe, recipe, 0, ins)
}

/// A line that no rule of the pass reacts to.
pub open spec fn is_quiet(line: LineModel) -> bool {
    !line.license && !line.source && !line.cd
}

/// A line as the four patterns mark it.
pub open spec fn model_of(text: Seq<char>) -> LineModel {
    LineModel {
        text,
        license: pattern_matches(license_pattern(), text),
        source: pattern_matches(source_pattern(), text),
        cd: pattern_matches(cd_pattern(), text),
        describe: pattern_matches(describe_pattern(), text),
    }
}

/// The lines of a recipe as the four patterns mark them.
pub open spec fn marked(recipe: Seq<Seq<char>>) -> Seq<LineModel> {
    Seq::new(recipe.len(), |i: int| model_of(recipe[i]))
}

/// The lines that the pass writes for a reference, as the patterns mark
/// them.
pub open spec fn inserts_of(source: Seq<char>) -> InsertsModel {
    InsertsModel {
        groups: model_of(groups_line()),
        entry: model_of(source_entry(source)),
        remote: model_of(remote_line()),
        fetch: model_of(fetch_line()),
    }
}

/// The patched recipe, line by line.
pub open spec fn patched(recipe: Seq<Seq<char>>, source: Seq<char>) -> Option<Seq<Seq<char>>> {
    match rules_applied(marked(recipe), inserts_of(source)) {
        Some(out) => Some(model_texts(out)),
        None => None,
    }
}

/// The patched text of a recipe: `None` where a rule reaches past the end of
/// its lines.
pub open spec fn patched_text(lines: Seq<Seq<char>>, source: Seq<char>) -> Option<Seq<char>> {
    match patched(lines, source) {
        Some(out) => Some(concat_lines(out)),
        None => None,
    }
}

impl MarkedLine {
    /// A copy of the line.
    pub fn copy(&self) -> (r: MarkedLine)
        ensures
            r@ == self@,
    {
        MarkedLine {
            text: self.text.clone(),
            license: self.license,
            source: self.source,
            cd: self.cd,
            describe: self.describe,
        }
    }
}

/// Runs the pass over marked lines: `recipe` is read, and a copy of it that
/// the rules replace and insert `inserts` in is returned.
pub fn apply_rules(recipe: &Vec<MarkedLine>, inserts: &Inserts) -> (r: Result<
    Vec<MarkedLine>,
    RecipeError,
>)
    ensures
        match rules_applied(models(recipe@), inserts@) {
            Some(out) => r matches Ok(v) && models(v@) == out,
            None => r matches Err(e) && e == RecipeError::Truncated,
        },
{
    let mut live: Vec<MarkedLine> = Vec::new();
    let mut n: usize = 0;
    while n < recipe.len()
        invariant
            n <= recipe@.len(),
            live@.len() == n,
            forall|j: int| 0 <= j < n ==> live@[j]@ == recipe@[j]@,
        decreases recipe@.len() - n,
    {
        live.push(recipe[n].copy());
        n = n + 1;
    }
    assert(models(live@) =~= models(recipe@));
    let mut index: usize = 0;
    while index < recipe.len()
        invariant
            index <= recipe@.len(),
            live@.len() >= recipe@.len(),
            rules_from(models(recipe@), models(live@), index as int, inserts@) == rules_applied(
                models(recipe@),
                inserts@,
            ),
        decreases recipe@.len() - index,
    {
        let line: &MarkedLine = &recipe[index];
        let at: usize = index + (live.len() - recipe.len());
        let ghost before = models(live@);
        assert(models(recipe@)[index as int] == line@);
        assert(at == position_in(models(recipe@), before, index as int));
        if line.license {
            live.insert(at + 1, inserts.groups.copy());
            assert(models(live@) =~= before.insert(at + 1, inserts@.groups));
        }
        let ghost with_marker = models(live@);
        if line.source {
            if at + 1 >= live.len() {
                return Err(RecipeError::Truncated);
            }
            live.set(at + 1, inserts.entry.copy());
            assert(models(live@) =~= with_marker.update(at + 1, inserts@.entry));
        }
        let ghost pointed = models(live@);
        if line.cd {
            if at + 1 >= live.len() || at + 2 >= live.len() {
                return Err(RecipeError::Truncated);
            }
            assert(pointed[at + 2] == live@[at + 2]@);
            if live[at + 2].describe {
                live.insert(at + 1, inserts.remote.copy());
                live.insert(at + 2, inserts.fetch.copy());
                assert(models(live@) =~= pointed.insert(at + 1, inserts@.remote).insert(
                    at + 2,
                    inserts@.fetch,
                ));
            }
        }
        assert(rule_step(before, line@, at as int, inserts@) == Some(models(live@)));
        index = index + 1;
    }
    Ok(live)
}

/// From an index on which only quiet lines follow, the pass changes nothing.
pub proof fn lemma_quiet_tail(
    recipe: Seq<LineModel>,
    live: Seq<LineModel>,
    i: int,
    ins: InsertsModel,
)
    requires
        0 <= i <= recipe.len(),
        forall|j: int| i <= j < recipe.len() ==> is_quiet(#[trigger] recipe[j]),
    ensures
        rules_from(recipe, live, i, ins) == Some(live),
    decreases recipe.len() - i,
{
    if i < recipe.len() {
        assert(is_quiet(recipe[i]));
        lemma_quiet_tail(recipe, live, i + 1, ins);
    }
}

/// The pass skips a stretch of quiet lines.
pub proof fn lemma_quiet_stretch(
    recipe: Seq<LineModel>,
    live: Seq<LineModel>,
    i: int,
    k: int,
    ins: InsertsModel,
)
    requires
        0 <= i <= k <= recipe.len(),
        forall|j: int| i <= j < k ==> is_quiet(#[trigger] recipe[j]),
    ensures
        rules_from(recipe, live, i, ins) == rules_from(recipe, live, k, ins),
    decreases k - i,
{
    if i < k {
        assert(is_quiet(recipe[i]));
        lemma_quiet_stretch(recipe, live, i + 1, k, ins);
    }
}

/// A recipe in which no line matches a pattern is left as it is: the pass
/// never fails for want of a match.
pub proof fn lemma_no_match_no_change(recipe: Seq<LineModel>, ins: InsertsModel)
    requires
        forall|j: int| 0 <= j < recipe.len() ==> is_quiet(#[trigger] recipe[j]),
    ensures
        rules_applied(recipe, ins) == Some(recipe),
{
    lemma_quiet_tail(recipe, recipe, 0, ins);
}

/// Where the line at `k` is the only one that a rule reacts to, the patched
/// recipe is what the rules make of the recipe at that line.
pub proof fn lemma_single_match(recipe: Seq<LineModel>, k: int, ins: InsertsModel)
    requires
        0 <= k < recipe.len(),
        forall|j: int| 0 <= j < recipe.len() && j != k ==> is_quiet(#[trigger] recipe[j]),
    ensures
        rules_applied(recipe, ins) == rule_step(recipe, recipe[k], k, ins),
{
    lemma_quiet_stretch(recipe, recipe, 0, k, ins);
    match rule_step(recipe, recipe[k], k, ins) {
        None => {},
        Some(next) => {
            lemma_quiet_tail(recipe, next, k + 1, ins);
        },
    }
}

/// A lone license declaration gets the marker as the line after it; every
/// other line is kept and the recipe grows by one line.
pub proof fn lemma_license_gets_marker(recipe: Seq<LineModel>, k: int, ins: InsertsModel)
    requires
        0 <= k < recipe.len(),
        forall|j: int| 0 <= j < recipe.len() && j != k ==> is_quiet(#[trigger] recipe[j]),
        recipe[k].license && !recipe[k].source && !recipe[k].cd,
    ensures
        rules_applied(recipe, ins) == Some(recipe.insert(k + 1, ins.groups)),
        recipe.insert(k + 1, ins.groups).len() == recipe.len() + 1,
{
    lemma_single_match(recipe, k, ins);
}

/// Patching is not idempotent: run again on its own result, the pass gives
/// a lone license declaration a second marker and does not look for the
/// first. (The marker is a line that no rule reacts to.)
pub proof fn lemma_second_run_duplicates_marker(
    recipe: Seq<LineModel>,
    k: int,
    ins: InsertsModel,
)
    requires
        0 <= k < recipe.len(),
        forall|j: int| 0 <= j < recipe.len() && j != k ==> is_quiet(#[trigger] recipe[j]),
        recipe[k].license && !recipe[k].source && !recipe[k].cd,
        is_quiet(ins.groups),
    ensures
        rules_applied(recipe, ins) == Some(recipe.insert(k + 1, ins.groups)),
        rules_applied(recipe.insert(k + 1, ins.groups), ins) == Some(
            recipe.insert(k + 1, ins.groups).insert(k + 1, ins.groups),
        ),
{
    lemma_license_gets_marker(recipe, k, ins);
    let once = recipe.insert(k + 1, ins.groups);
    assert forall|j: int| 0 <= j < once.len() && j != k implies is_quiet(#[trigger] once[j]) by {
        if j < k {
            assert(once[j] == recipe[j]);
        } else if j == k + 1 {
            assert(once[j] == ins.groups);
        } else {
            assert(once[j] == recipe[j - 1]);
        }
    }
    assert(once[k] == recipe[k]);
    lemma_license_gets_marker(once, k, ins);
}

/// A lone source declaration has the line after it replaced by the source
/// entry for the reference; every other line is kept and the number of
/// lines stays. Where no line follows it, the recipe is refused.
pub proof fn lemma_source_replaces_next(recipe: Seq<LineModel>, k: int, ins: InsertsModel)
    requires
        0 <= k < recipe.len(),
        forall|j: int| 0 <= j < recipe.len() && j != k ==> is_quiet(#[trigger] recipe[j]),
        recipe[k].source && !recipe[k].license && !recipe[k].cd,
    ensures
        k + 1 == recipe.len() ==> rules_applied(recipe, ins).is_none(),
        k + 1 < recipe.len() ==> rules_applied(recipe, ins) == Some(
            recipe.update(k + 1, ins.entry),
        ),
        k + 1 < recipe.len() ==> {
            let out = rules_applied(recipe, ins).unwrap();
            &&& out.len() == recipe.len()
            &&& out[k + 1] == ins.entry
            &&& forall|j: int| 0 <= j < recipe.len() && j != k + 1 ==> out[j] == recipe[j]
        },
{
    lemma_single_match(recipe, k, ins);
}

/// A lone directory change with a version query two lines later gets the
/// two lines for the upstream remote directly after it: exactly two lines
/// are added and every line of the recipe is kept. Without the query
/// nothing changes, and where fewer than two lines follow the directory
/// change the recipe is refused.
pub proof fn lemma_describe_gets_upstream(recipe: Seq<LineModel>, k: int, ins: InsertsModel)
    requires
        0 <= k < recipe.len(),
        forall|j: int| 0 <= j < recipe.len() && j != k ==> is_quiet(#[trigger] recipe[j]),
        recipe[k].cd && !recipe[k].license && !recipe[k].source,
    ensures
        k + 2 >= recipe.len() ==> rules_applied(recipe, ins).is_none(),
        k + 2 < recipe.len() && recipe[k + 2].describe ==> {
            let out = recipe.insert(k + 1, ins.remote).insert(k + 2, ins.fetch);
            &&& rules_applied(recipe, ins) == Some(out)
            &&& out.len() == recipe.len() + 2
            &&& out[k] == recipe[k]
            &&& out[k + 1] == ins.remote
            &&& out[k + 2] == ins.fetch
            &&& out[k + 3] == recipe[k + 1]
            &&& out[k + 4] == recipe[k + 2]
        },
        k + 2 < recipe.len() && !recipe[k + 2].describe ==> rules_applied(recipe, ins) == Some(
            recipe,
        ),
{
    lemma_single_match(recipe, k, ins);
}

/// After a license declaration, a source declaration keeps its own line:
/// the marker follows the license, and the source entry replaces the line
/// after the source declaration. Every other line is kept.
pub proof fn lemma_marker_then_source(recipe: Seq<LineModel>, j: int, k: int, ins: InsertsModel)
    requires
        0 <= j < k,
        k + 1 < recipe.len(),
        forall|m: int| 0 <= m < recipe.len() && m != j && m != k ==> is_quiet(#[trigger] recipe[m]),
        recipe[j].license && !recipe[j].source && !recipe[j].cd,
        recipe[k].source && !recipe[k].license && !recipe[k].cd,
    ensures
        ({
            let out = recipe.insert(j + 1, ins.groups).update(k + 2, ins.entry);
            &&& rules_applied(recipe, ins) == Some(out)
            &&& out.len() == recipe.len() + 1
            &&& out[j] == recipe[j]
            &&& out[j + 1] == ins.groups
            &&& out[k + 1] == recipe[k]
            &&& out[k + 2] == ins.entry
        }),
{
    lemma_quiet_stretch(recipe, recipe, 0, j, ins);
    let with_marker = recipe.insert(j + 1, ins.groups);
    assert(rule_step(recipe, recipe[j], j, ins) == Some(with_marker));
    lemma_quiet_stretch(recipe, with_marker, j + 1, k, ins);
    let out = with_marker.update(k + 2, ins.entry);
    assert(position_in(recipe, with_marker, k) == k + 1);
    assert(rule_step(with_marker, recipe[k], k + 1, ins) == Some(out));
    lemma_quiet_tail(recipe, out, k + 1, ins);
    assert(with_marker[k + 1] == recipe[k]);
}

/// After a license declaration, a directory change with a version query
/// two lines later still gets the two upstream lines directly after it: the
/// marker moves the position that the rule works at along with the line.
pub proof fn lemma_marker_then_directory_change(
    recipe: Seq<LineModel>,
    j: int,
    k: int,
    ins: InsertsModel,
)
    requires
        0 <= j < k,
        k + 2 < recipe.len(),
        forall|m: int| 0 <= m < recipe.len() && m != j && m != k ==> is_quiet(#[trigger] recipe[m]),
        recipe[j].license && !recipe[j].source && !recipe[j].cd,
        recipe[k].cd && !recipe[k].license && !recipe[k].source,
        recipe[k + 2].describe,
    ensures
        ({
            let out = recipe.insert(j + 1, ins.groups).insert(k + 2, ins.remote).insert(
                k + 3,
                ins.fetch,
            );
            &&& rules_applied(recipe, ins) == Some(out)
            &&& out.len() == recipe.len() + 3
            &&& out[j + 1] == ins.groups
            &&& out[k + 1] == recipe[k]
            &&& out[k + 2] == ins.remote
            &&& out[k + 3] == ins.fetch
            &&& out[k + 4] == recipe[k + 1]
            &&& out[k + 5] == recipe[k + 2]
        }),
{
    lemma_quiet_stretch(recipe, recipe, 0, j, ins);
    let with_marker = recipe.insert(j + 1, ins.groups);
    assert(rule_step(recipe, recipe[j], j, ins) == Some(with_marker));
    lemma_quiet_stretch(recipe, with_marker, j + 1, k, ins);
    assert(position_in(recipe, with_marker, k) == k + 1);
    assert(with_marker[k + 3] == recipe[k + 2]);
    let out = with_marker.insert(k + 2, ins.remote).insert(k + 3, ins.fetch);
    assert(rule_step(with_marker, recipe[k], k + 1, ins) == Some(out));
    lemma_quiet_tail(recipe, out, k + 1, ins);
    assert(with_marker[k + 1] == recipe[k]);
    assert(with_marker[k + 2] == recipe[k + 1]);
}

/// How many of the lines from index `i` on declare a license.
pub open spec fn licenses_from(recipe: Seq<LineModel>, i: int) -> int
    decreases recipe.len() - i,
{
    if i >= recipe.len() {
        0
    } else {
        (if recipe[i].license { 1int } else { 0int }) + licenses_from(recipe, i + 1)
    }
}

/// Whether the directory rule adds its two lines when the pass reads `line`
/// at position `p` of the copy `live`.
pub open spec fn fires(live: Seq<LineModel>, line: LineModel, p: int, ins: InsertsModel) -> bool {
    let marked = if line.license {
        live.insert(p + 1, ins.groups)
    } else {
        live
    };
    line.cd && p + 2 < marked.len() && marked[p + 2].describe
}

/// How often the directory rule fires from index `i` on, with `live` as the
/// copy so far.
pub open spec fn fired_from(
    recipe: Seq<LineModel>,
    live: Seq<LineModel>,
    i: int,
    ins: InsertsModel,
) -> int
    decreases recipe.len() - i,
{
    if i >= recipe.len() {
        0
    } else {
        let p = position_in(recipe, live, i);
        match rule_step(live, recipe[i], p, ins) {
            None => 0,
            Some(next) => (if fires(live, recipe[i], p, ins) { 1int } else { 0int }) + fired_from(
                recipe,
                next,
                i + 1,
                ins,
            ),
        }
    }
}

/// The pass only replaces and inserts. From index `i` on it adds one line
/// for each license declaration and two for each directory change that
/// fires, and nothing else.
pub proof fn lemma_growth_from(
    recipe: Seq<LineModel>,
    live: Seq<LineModel>,
    i: int,
    ins: InsertsModel,
)
    requires
        0 <= i <= recipe.len() <= live.len(),
    ensures
        fired_from(recipe, live, i, ins) >= 0,
        rules_from(recipe, live, i, ins) matches Some(out) ==> out.len() == live.len()
            + licenses_from(recipe, i) + 2 * fired_from(recipe, live, i, ins),
    decreases recipe.len() - i,
{
    if i < recipe.len() {
        let p = position_in(recipe, live, i);
        match rule_step(live, recipe[i], p, ins) {
            None => {},
            Some(next) => {
                lemma_growth_from(recipe, next, i + 1, ins);
            },
        }
    }
}

/// The patched recipe has as many lines as the recipe, and one more for each
/// license declaration, and two more for each directory change that fired.
/// The source rule adds no line and removes none.
pub proof fn lemma_line_count(recipe: Seq<LineModel>, ins: InsertsModel)
    ensures
        rules_applied(recipe, ins) matches Some(out) ==> out.len() == recipe.len()
            + licenses_from(recipe, 0) + 2 * fired_from(recipe, recipe, 0, ins),
{
    lemma_growth_from(recipe, recipe, 0, ins);
}

/// In a recipe without license declarations and directory changes, the
/// pass from index `i` on replaces exactly the lines that follow a source
/// declaration, and is refused exactly where the last line is one.
pub proof fn lemma_sources_only_from(
    recipe: Seq<LineModel>,
    live: Seq<LineModel>,
    i: int,
    ins: InsertsModel,
)
    requires
        0 <= i <= recipe.len(),
        live.len() == recipe.len(),
        forall|j: int| 0 <= j < recipe.len() ==> !(#[trigger] recipe[j]).license && !recipe[j].cd,
    ensures
        i < recipe.len() && recipe.last().source ==> rules_from(recipe, live, i, ins).is_none(),
        !(i < recipe.len() && recipe.last().source) ==> (rules_from(recipe, live, i, ins) matches Some(
            out,
        ) && out.len() == recipe.len() && forall|j: int|
            0 <= j < recipe.len() ==> #[trigger] out[j] == (if j > i && recipe[j - 1].source {
                ins.entry
            } else {
                live[j]
            })),
    decreases recipe.len() - i,
{
    if i < recipe.len() {
        assert(!recipe[i].license && !recipe[i].cd);
        assert(position_in(recipe, live, i) == i);
        if recipe[i].source {
            if i + 1 < recipe.len() {
                lemma_sources_only_from(recipe, live.update(i + 1, ins.entry), i + 1, ins);
            }
        } else {
            lemma_sources_only_from(recipe, live, i + 1, ins);
        }
    }
}

/// In a recipe without license declarations and directory changes, each
/// line that follows a source declaration is replaced by the source entry;
/// every other line is kept as it is, and the number of lines stays. The
/// recipe is refused exactly where its last line is a source declaration.
pub proof fn lemma_sources_only(recipe: Seq<LineModel>, ins: InsertsModel)
    requires
        forall|j: int| 0 <= j < recipe.len() ==> !(#[trigger] recipe[j]).license && !recipe[j].cd,
    ensures
        recipe.len() > 0 && recipe.last().source ==> rules_applied(recipe, ins).is_none(),
        !(recipe.len() > 0 && recipe.last().source) ==> (rules_applied(recipe, ins) matches Some(
            out,
        ) && out.len() == recipe.len() && forall|j: int|
            0 <= j < recipe.len() ==> #[trigger] out[j] == (if j > 0 && recipe[j - 1].source {
                ins.entry
            } else {
                recipe[j]
            })),
{
    lemma_sources_only_from(recipe, recipe, 0, ins);
}

/// The lines of a recipe with `marker` after each license declaration.
pub open spec fn with_markers(recipe: Seq<LineModel>, marker: LineModel) -> Seq<LineModel>
    decreases recipe.len(),
{
    if recipe.len() == 0 {
        Seq::<LineModel>::empty()
    } else {
        let kept = with_markers(recipe.drop_last(), marker).push(recipe.last());
        if recipe.last().license {
            kept.push(marker)
        } else {
            kept
        }
    }
}

/// How many of the lines have the given text.
pub open spec fn count_text(lines: Seq<LineModel>, text: Seq<char>) -> int
    decreases lines.len(),
{
    if lines.len() == 0 {
        0
    } else {
        count_text(lines.drop_last(), text) + (if lines.last().text == text { 1int } else { 0int })
    }
}

/// How many of the lines declare a license.
pub open spec fn count_licenses(lines: Seq<LineModel>) -> int
    decreases lines.len(),
{
    if lines.len() == 0 {
        0
    } else {
        count_licenses(lines.drop_last()) + (if lines.last().license { 1int } else { 0int })
    }
}

/// In a recipe without source declarations and directory changes, the pass
/// from index `i` on puts the marker after each license declaration.
pub proof fn lemma_markers_from(
    recipe: Seq<LineModel>,
    live: Seq<LineModel>,
    i: int,
    ins: InsertsModel,
)
    requires
        0 <= i <= recipe.len(),
        forall|j: int| 0 <= j < recipe.len() ==> !(#[trigger] recipe[j]).source && !recipe[j].cd,
        live == with_markers(recipe.take(i), ins.groups) + recipe.skip(i),
    ensures
        rules_from(recipe, live, i, ins) == Some(with_markers(recipe, ins.groups)),
    decreases recipe.len() - i,
{
    let done = with_markers(recipe.take(i), ins.groups);
    if i >= recipe.len() {
        assert(recipe.take(i) =~= recipe);
        assert(live =~= with_markers(recipe, ins.groups));
    } else {
        assert(!recipe[i].source && !recipe[i].cd);
        let p = position_in(recipe, live, i);
        assert(p == done.len());
        assert(recipe.take(i + 1).drop_last() =~= recipe.take(i));
        assert(recipe.take(i + 1).last() == recipe[i]);
        let next = rule_step(live, recipe[i], p, ins).unwrap();
        assert(next =~= with_markers(recipe.take(i + 1), ins.groups) + recipe.skip(i + 1));
        lemma_markers_from(recipe, next, i + 1, ins);
    }
}

/// The markers add one line with the marker's text for each license
/// declaration.
pub proof fn lemma_marker_count(recipe: Seq<LineModel>, marker: LineModel)
    ensures
        with_markers(recipe, marker).len() == recipe.len() + count_licenses(recipe),
        count_text(with_markers(recipe, marker), marker.text) == count_text(recipe, marker.text)
            + count_licenses(recipe),
    decreases recipe.len(),
{
    if recipe.len() > 0 {
        lemma_marker_count(recipe.drop_last(), marker);
        let before = with_markers(recipe.drop_last(), marker);
        let kept = before.push(recipe.last());
        assert(kept.drop_last() =~= before);
        assert(kept.last() == recipe.last());
        assert(count_text(kept, marker.text) == count_text(before, marker.text) + (if recipe.last().text
            == marker.text {
            1int
        } else {
            0int
        }));
        if recipe.last().license {
            let all = kept.push(marker);
            assert(all.drop_last() =~= kept);
            assert(all.last() == marker);
            assert(count_text(all, marker.text) == count_text(kept, marker.text) + 1);
        }
    }
}

/// In a recipe without source declarations and directory changes, every
/// license declaration gets a marker directly after it and every line is
/// kept in its place among the others. The pass does not look for markers
/// that are there already: a recipe with `m` marker lines and `l` license
/// declarations comes out with `m + l` marker lines.
pub proof fn lemma_markers_only(recipe: Seq<LineModel>, ins: InsertsModel)
    requires
        forall|j: int| 0 <= j < recipe.len() ==> !(#[trigger] recipe[j]).source && !recipe[j].cd,
    ensures
        rules_applied(recipe, ins) == Some(with_markers(recipe, ins.groups)),
        count_text(with_markers(recipe, ins.groups), ins.groups.text) == count_text(
            recipe,
            ins.groups.text,
        ) + count_licenses(recipe),
{
    assert(recipe.take(0) =~= Seq::<LineModel>::empty());
    assert(with_markers(recipe.take(0), ins.groups) + recipe.skip(0) =~= recipe);
    lemma_markers_from(recipe, recipe, 0, ins);
    lemma_marker_count(recipe, ins.groups);
}

/// Among the first `n` of the lines, the two upstream lines stand only in
/// pairs: each remote line is directly followed by a fetch line, and each
/// fetch line directly follows a remote line.
pub open spec fn paired_upto(lines: Seq<LineModel>, n: int, ins: InsertsModel) -> bool {
    &&& forall|j: int|
        0 <= j < n && (#[trigger] lines[j]).text == ins.remote.text ==> j + 1 < n && lines[j
            + 1].text == ins.fetch.text
    &&& forall|j: int|
        0 <= j < n && (#[trigger] lines[j]).text == ins.fetch.text ==> j > 0 && lines[j
            - 1].text == ins.remote.text
}

/// The two upstream lines differ from each other, from the marker and from
/// the source entry.
pub open spec fn distinct_inserts(ins: InsertsModel) -> bool {
    &&& ins.remote.text != ins.fetch.text
    &&& ins.groups.text != ins.remote.text
    &&& ins.groups.text != ins.fetch.text
    &&& ins.entry.text != ins.remote.text
    &&& ins.entry.text != ins.fetch.text
}

/// No line has the text of an upstream line.
pub open spec fn free_of_upstream(lines: Seq<LineModel>, ins: InsertsModel) -> bool {
    forall|j: int|
        0 <= j < lines.len() ==> (#[trigger] lines[j]).text != ins.remote.text && lines[j].text
            != ins.fetch.text
}

/// The pass keeps the upstream lines in pairs: what it has finished is
/// paired, and what it has not reached is still the recipe.
pub proof fn lemma_upstream_pairs_from(
    recipe: Seq<LineModel>,
    live: Seq<LineModel>,
    i: int,
    ins: InsertsModel,
)
    requires
        0 <= i <= recipe.len() <= live.len(),
        distinct_inserts(ins),
        free_of_upstream(recipe, ins),
        forall|j: int| i < j < recipe.len() ==> live[j + (live.len() - recipe.len())] == recipe[j],
        i < recipe.len() ==> live[position_in(recipe, live, i)].text != ins.remote.text
            && live[position_in(recipe, live, i)].text != ins.fetch.text,
        paired_upto(live, position_in(recipe, live, i), ins),
    ensures
        rules_from(recipe, live, i, ins) matches Some(out) ==> paired_upto(
            out,
            out.len() as int,
            ins,
        ),
    decreases recipe.len() - i,
{
    if i < recipe.len() {
        let p = position_in(recipe, live, i);
        let line = recipe[i];
        match rule_step(live, line, p, ins) {
            None => {},
            Some(next) => {
                let grown = next.len() - live.len();
                let q = position_in(recipe, next, i + 1);
                assert(q == p + 1 + grown);
                assert forall|j: int| i + 1 < j < recipe.len() implies next[j + (next.len()
                    - recipe.len())] == recipe[j] by {
                    assert(live[j + (live.len() - recipe.len())] == recipe[j]);
                }
                if i + 1 < recipe.len() {
                    assert(live[(i + 1) + (live.len() - recipe.len())] == recipe[i + 1]);
                    assert(recipe[i + 1].text != ins.remote.text);
                    assert(next[q].text != ins.remote.text && next[q].text != ins.fetch.text);
                }
                assert(paired_upto(next, q, ins)) by {
                    assert forall|j: int|
                        0 <= j < q && (#[trigger] next[j]).text == ins.remote.text implies j + 1 < q
                        && next[j + 1].text == ins.fetch.text by {
                        if j < p {
                            assert(next[j] == live[j]);
                            assert(live[j + 1].text == ins.fetch.text);
                            assert(next[j + 1] == live[j + 1]);
                        } else if j == p {
                            assert(next[j] == live[p]);
                        }
                    }
                    assert forall|j: int|
                        0 <= j < q && (#[trigger] next[j]).text == ins.fetch.text implies j > 0
                        && next[j - 1].text == ins.remote.text by {
                        if j < p {
                            assert(next[j] == live[j]);
                            assert(live[j - 1].text == ins.remote.text);
                            assert(next[j - 1] == live[j - 1]);
                        } else if j == p {
                            assert(next[j] == live[p]);
                        }
                    }
                }
                lemma_upstream_pairs_from(recipe, next, i + 1, ins);
            },
        }
    }
}

/// In the patched recipe of a recipe that holds neither of the two upstream
/// lines, each remote line is directly followed by a fetch line and each
/// fetch line directly follows a remote line: the two come in pairs, one
/// pair for each directory change that fired.
pub proof fn lemma_upstream_pairs(recipe: Seq<LineModel>, ins: InsertsModel)
    requires
        distinct_inserts(ins),
        free_of_upstream(recipe, ins),
    ensures
        rules_applied(recipe, ins) matches Some(out) ==> paired_upto(out, out.len() as int, ins),
{
    if recipe.len() > 0 {
        assert(recipe[0].text != ins.remote.text);
    }
    lemma_upstream_pairs_from(recipe, recipe, 0, ins);
}

/// Without a directory change the pass writes no upstream line.
pub proof fn lemma_no_upstream_without_directory_change(
    recipe: Seq<LineModel>,
    live: Seq<LineModel>,
    i: int,
    ins: InsertsModel,
)
    requires
        0 <= i <= recipe.len() <= live.len(),
        distinct_inserts(ins),
        free_of_upstream(live, ins),
        forall|j: int| 0 <= j < recipe.len() ==> !(#[trigger] recipe[j]).cd,
    ensures
        rules_from(recipe, live, i, ins) matches Some(out) ==> free_of_upstream(out, ins),
    decreases recipe.len() - i,
{
    if i < recipe.len() {
        let p = position_in(recipe, live, i);
        assert(!recipe[i].cd);
        match rule_step(live, recipe[i], p, ins) {
            None => {},
            Some(next) => {
                assert forall|j: int| 0 <= j < next.len() implies (#[trigger] next[j]).text
                    != ins.remote.text && next[j].text != ins.fetch.text by {
                    if j < p + 1 {
                        assert(next[j] == live[j]);
                    } else if j == p + 1 {
                    } else if recipe[i].license {
                        assert(next[j] == live[j - 1]);
                    } else {
                        assert(next[j] == live[j]);
                    }
                }
                lemma_no_upstream_without_directory_change(recipe, next, i + 1, ins);
            },
        }
    }
}

/// Searches `text` for the four patterns. Fails with `Pattern` exactly where
/// one of them does not compile.
pub fn mark_line(text: String) -> (r: Result<MarkedLine, RecipeError>)
    ensures
        patterns_compile() ==> (r matches Ok(m) && m@ == model_of(text@)),
        !patterns_compile() ==> (r matches Err(e) && e == RecipeError::Pattern),
{
    let license = match search(r"license=\(.*\)", text.as_str()) {
        Some(found) => found,
        None => { return Err(RecipeError::Pattern); },
    };
    let source = match search(r"source=\(.*\)", text.as_str()) {
        Some(found) => found,
        None => { return Err(RecipeError::Pattern); },
    };
    let cd = match search(r".*cd qtile", text.as_str()) {
        Some(found) => found,
        None => { return Err(RecipeError::Pattern); },
    };
    let describe = match search(r".*git describe", text.as_str()) {
        Some(found) => found,
        None => { return Err(RecipeError::Pattern); },
    };
    Ok(MarkedLine { text, license, source, cd, describe })
}

/// The lines that the pass writes for `source`, marked.
pub fn mark_inserts(source: &str) -> (r: Result<Inserts, RecipeError>)
    ensures
        patterns_compile() ==> (r matches Ok(ins) && ins@ == inserts_of(source@)),
        !patterns_compile() ==> (r matches Err(e) && e == RecipeError::Pattern),
{
    let groups = match mark_line("groups=('modified')\n".to_owned()) {
        Ok(m) => m,
        Err(e) => { return Err(e); },
    };
    let entry = match mark_line("source=('git+".to_owned().concat(source).concat("')\n")) {
        Ok(m) => m,
        Err(e) => { return Err(e); },
    };
    let remote = match mark_line(
        "  git remote add upstream https://github.com/qtile/qtile.git\n".to_owned(),
    ) {
        Ok(m) => m,
        Err(e) => { return Err(e); },
    };
    let fetch = match mark_line("  git fetch upstream --tags --force\n".to_owned()) {
        Ok(m) => m,
        Err(e) => { return Err(e); },
    };
    Ok(Inserts { groups, entry, remote, fetch })
}

/// Patches the lines of a recipe so that it builds `source`.
///
/// Fails with `Pattern` exactly where a pattern does not compile, and
/// otherwise with `Truncated` exactly where a rule reaches past the end.
pub fn patch_lines(lines: &Vec<String>, source: &str) -> (r: Result<Vec<String>, RecipeError>)
    ensures
        !patterns_compile() ==> (r matches Err(e) && e == RecipeError::Pattern),
        patterns_compile() ==> match patched(texts(lines@), source@) {
            Some(out) => r matches Ok(v) && texts(v@) == out,
            None => r matches Err(e) && e == RecipeError::Truncated,
        },
{
    let inserts = match mark_inserts(source) {
        Ok(ins) => ins,
        Err(e) => { return Err(e); },
    };
    let mut recipe: Vec<MarkedLine> = Vec::new();
    let mut i: usize = 0;
    while i < lines.len()
        invariant
            patterns_compile(),
            i <= lines@.len(),
            recipe@.len() == i,
            forall|j: int| 0 <= j < i ==> recipe@[j]@ == model_of(lines@[j]@),
        decreases lines@.len() - i,
    {
        match mark_line(lines[i].clone()) {
            Ok(m) => { recipe.push(m); },
            Err(e) => { return Err(e); },
        }
        i = i + 1;
    }
    assert(models(recipe@) =~= marked(texts(lines@)));
    match apply_rules(&recipe, &inserts) {
        Err(e) => Err(e),
        Ok(live) => {
            let mut out: Vec<String> = Vec::new();
            let mut k: usize = 0;
            while k < live.len()
                invariant
                    k <= live@.len(),
                    out@.len() == k,
                    forall|j: int| 0 <= j < k ==> out@[j]@ == live@[j]@.text,
                decreases live@.len() - k,
            {
                out.push(live[k].text.clone());
                k = k + 1;
            }
            assert(texts(out@) =~= model_texts(models(live@)));
            Ok(out)
        },
    }
}

/// Patches the text of a recipe so that it builds `source`: the text is cut
/// into lines, the pass runs over them, and the lines are joined again.
///
/// Fails with `Pattern` exactly where a pattern does not compile, and
/// otherwise with `Truncated` exactly where a rule reaches past the end.
pub fn modify_pkgbuild(text: &str, source: &str) -> (r: Result<String, RecipeError>)
    ensures
        !patterns_compile() ==> (r matches Err(e) && e == RecipeError::Pattern),
        patterns_compile() ==> match patched_text(lines_of(text@), source@) {
            Some(out) => r matches Ok(s) && s@ == out,
            None => r matches Err(e) && e == RecipeError::Truncated,
        },
{
    let lines = split_lines(text);
    match patch_lines(&lines, source) {
        Ok(out) => Ok(join_lines(&out)),
        Err(e) => Err(e),
    }
}

/// For the lines of a recipe of which none declares a license or changes
/// into the project's directory: each line that follows a source
/// declaration is replaced by the source entry for the reference, every
/// other line is written back as it was read, and the number of lines stays.
/// The recipe is refused exactly where its last line is a source
/// declaration.
pub proof fn lemma_patched_sources_only(recipe: Seq<Seq<char>>, source: Seq<char>)
    requires
        forall|j: int|
            0 <= j < recipe.len() ==> !model_of(#[trigger] recipe[j]).license && !model_of(
                recipe[j],
            ).cd,
    ensures
        recipe.len() > 0 && model_of(recipe.last()).source ==> patched(recipe, source).is_none(),
        !(recipe.len() > 0 && model_of(recipe.last()).source) ==> (patched(recipe, source) matches Some(
            out,
        ) && out.len() == recipe.len() && forall|j: int|
            0 <= j < recipe.len() ==> #[trigger] out[j] == (if j > 0 && model_of(
                recipe[j - 1],
            ).source {
                source_entry(source)
            } else {
                recipe[j]
            })),
{
    let lines = marked(recipe);
    let ins = inserts_of(source);
    assert forall|j: int| 0 <= j < lines.len() implies !(#[trigger] lines[j]).license
        && !lines[j].cd by {
        assert(lines[j] == model_of(recipe[j]));
    }
    lemma_sources_only(lines, ins);
    if !(recipe.len() > 0 && model_of(recipe.last()).source) {
        let out = rules_applied(lines, ins).unwrap();
        assert forall|j: int| 0 <= j < recipe.len() implies #[trigger] model_texts(out)[j] == (if j
            > 0 && model_of(recipe[j - 1]).source {
            source_entry(source)
        } else {
            recipe[j]
        }) by {
            assert(model_texts(out)[j] == out[j].text);
            if j > 0 {
                assert(lines[j - 1] == model_of(recipe[j - 1]));
            }
            assert(lines[j] == model_of(recipe[j]));
        }
    }
}

/// A text in which no line matches a pattern is patched to itself.
pub proof fn lemma_no_match_same_text(text: Seq<char>, source: Seq<char>)
    requires
        forall|j: int|
            0 <= j < lines_of(text).len() ==> is_quiet(model_of(#[trigger] lines_of(text)[j])),
    ensures
        patched_text(lines_of(text), source) == Some(text),
{
    let recipe = marked(lines_of(text));
    lemma_no_match_no_change(recipe, inserts_of(source));
    assert(model_texts(recipe) =~= lines_of(text));
    lemma_lines_concat(text);
}

} // verus!

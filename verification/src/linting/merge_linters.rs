//! Several rules run as one.
use vstd::prelude::*;
use vstd::string::StringExecFns;
use crate::document::Document;
use crate::lint::{lint_views, Lint, LintView};
use crate::linting::{lemma_lint_views_concat, Linter};

verus! {

/// A rule made of child rules that look for the same mistake from different
/// sides.
///
/// It reports what each child reports, child after child. Lints of
/// different children may overlap; to settle that is left to whoever reads
/// the report.
pub struct MergedLinters<L> {
    children: Vec<L>,
    description: String,
}

/// What the children from child `from` on report on `document`, child after
/// child, each child's lints in the child's own order.
pub open spec fn merged_lints<L: Linter>(children: Seq<L>, document: &Document, from: int) -> Seq<
    LintView,
>
    decreases children.len() - from,
{
    if !(0 <= from < children.len()) {
        Seq::empty()
    } else {
        children[from].spec_lint(document) + merged_lints(children, document, from + 1)
    }
}

/// Whether each rule of `a` reports on every document what the rule at the
/// same place in `b` reports.
pub open spec fn report_alike<L: Linter>(a: Seq<L>, b: Seq<L>) -> bool {
    &&& a.len() == b.len()
    &&& forall|k: int, document: &Document|
        0 <= k < a.len() ==> #[trigger] a[k].spec_lint(document) == b[k].spec_lint(document)
}

/// Children that report alike merge into rules that report alike.
pub proof fn lemma_merged_alike<L: Linter>(a: Seq<L>, b: Seq<L>, document: &Document, from: int)
    requires
        report_alike(a, b),
    ensures
        merged_lints(a, document, from) == merged_lints(b, document, from),
    decreases a.len() - from,
{
    if 0 <= from < a.len() {
        assert(a[from].spec_lint(document) == b[from].spec_lint(document));
        lemma_merged_alike(a, b, document, from + 1);
    }
}

/// Makes one rule of `children`, described by `description`.
pub fn merge_linters<L: Linter>(children: Vec<L>, description: &str) -> (r: MergedLinters<L>)
    ensures
        r.children() == children@,
        r.description_text() == description@,
{
    MergedLinters { children, description: String::from_str(description) }
}

impl<L: Linter> MergedLinters<L> {
    /// The child rules, in the order in which they report.
    pub closed spec fn children(&self) -> Seq<L> {
        self.children@
    }

    /// The description that the rule was made with.
    pub closed spec fn description_text(&self) -> Seq<char> {
        self.description@
    }
}

impl<L: Linter> Linter for MergedLinters<L> {
    open spec fn spec_lint(&self, document: &Document) -> Seq<LintView> {
        merged_lints(self.children(), document, 0)
    }

    fn lint(&mut self, document: &Document) -> (r: Vec<Lint>) {
        let mut lints: Vec<Lint> = Vec::new();
        let mut i: usize = 0;
        proof {
            assert(lint_views(lints@) =~= Seq::empty());
        }
        while i < self.children.len()
            invariant
                i <= self.children@.len(),
                document.wf(),
                report_alike(self.children@, old(self).children@),
                lint_views(lints@) + merged_lints(old(self).children@, document, i as int)
                    == merged_lints(old(self).children@, document, 0),
            decreases self.children@.len() - i,
        {
            let ghost before = self.children@;
            let mut found = self.children[i].lint(document);
            proof {
                assert(lint_views(found@) == before[i as int].spec_lint(document));
                assert(before[i as int].spec_lint(document) == old(self).children@[i as int].spec_lint(
                    document,
                ));
                assert(report_alike(self.children@, old(self).children@)) by {
                    assert forall|k: int, other: &Document| 0 <= k < self.children@.len() implies #[trigger]
                        self.children@[k].spec_lint(other) == old(self).children@[k].spec_lint(
                        other,
                    ) by {
                        if k != i {
                            assert(self.children@[k] == before[k]);
                        }
                        assert(before[k].spec_lint(other) == old(self).children@[k].spec_lint(other));
                    }
                }
                lemma_lint_views_concat(lints@, found@);
            }
            lints.append(&mut found);
            proof {
                assert(lint_views(lints@) + merged_lints(old(self).children@, document, i + 1)
                    =~= merged_lints(old(self).children@, document, 0));
            }
            i += 1;
        }
        proof {
            assert(lint_views(lints@) + Seq::empty() =~= lint_views(lints@));
            assert forall|other: &Document| #[trigger]
                self.spec_lint(other) == old(self).spec_lint(other) by {
                lemma_merged_alike(self.children@, old(self).children@, other, 0);
            }
        }
        lints
    }

    open spec fn summary(&self) -> Seq<char> {
        self.description_text()
    }

    fn description(&self) -> (r: &str) {
        self.description.as_str()
    }
}

/// A boxed rule is a rule, so that rules of different kinds can stand side
/// by side in one list.
impl Linter for Box<dyn Linter> {
    open spec fn spec_lint(&self, document: &Document) -> Seq<LintView> {
        (**self).spec_lint(document)
    }

    fn lint(&mut self, document: &Document) -> (r: Vec<Lint>) {
        (**self).lint(document)
    }

    open spec fn summary(&self) -> Seq<char> {
        (**self).summary()
    }

    fn description(&self) -> (r: &str) {
        (**self).description()
    }
}

} // verus!

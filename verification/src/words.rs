//! Symbol-level rewriting: a rule replaces every leftmost, non-overlapping
//! occurrence of its pattern in a word by its result, and a pipeline applies
//! its rules to a list of words in order.

use vstd::prelude::*;
use crate::ast;

verus! {

/// One phonemic symbol of a word.
#[derive(Debug)]
pub struct Symbol {
    pub symbol: String,
}

impl View for Symbol {
    type V = Seq<char>;

    open spec fn view(&self) -> Seq<char> {
        self.symbol@
    }
}

impl Symbol {
    /// A copy of this symbol.
    pub fn duplicate(&self) -> (r: Symbol)
        ensures
            r@ == self@,
    {
        Symbol { symbol: self.symbol.clone() }
    }
}

/// A word: an ordered run of symbols.
#[derive(Debug)]
pub struct Word {
    pub symbols: Vec<Symbol>,
}

/// The symbols of a run, each seen as its character sequence.
pub open spec fn syms_view(v: Seq<Symbol>) -> Seq<Seq<char>> {
    Seq::new(v.len(), |i: int| v[i]@)
}

impl View for Word {
    type V = Seq<Seq<char>>;

    open spec fn view(&self) -> Seq<Seq<char>> {
        syms_view(self.symbols@)
    }
}

/// The words of a list, each seen as its symbol sequences.
pub open spec fn words_view(v: Seq<Word>) -> Seq<Seq<Seq<char>>> {
    Seq::new(v.len(), |i: int| v[i]@)
}

/// One ordered rewrite step of a sound-change pipeline.
#[derive(Debug)]
pub struct Rule {
    pub name: String,
    pub pattern: Vec<Symbol>,
    pub result: Vec<Symbol>,
}

/// The pattern occurs in `sym` at position `i`.
pub open spec fn spec_match_at(sym: Seq<Seq<char>>, pat: Seq<Seq<char>>, i: int) -> bool {
    &&& 0 <= i
    &&& i + pat.len() <= sym.len()
    &&& forall|j: int| 0 <= j < pat.len() ==> sym[i + j] == pat[j]
}

/// The symbols from position `i` on, with every leftmost, non-overlapping
/// occurrence of `pat` replaced by `res`. An empty pattern matches nowhere,
/// so it leaves the word unchanged.
pub open spec fn spec_rewrite(
    sym: Seq<Seq<char>>,
    pat: Seq<Seq<char>>,
    res: Seq<Seq<char>>,
    i: int,
) -> Seq<Seq<char>>
    decreases sym.len() - i,
{
    if i >= sym.len() {
        Seq::empty()
    } else if pat.len() >= 1 && spec_match_at(sym, pat, i) {
        res + spec_rewrite(sym, pat, res, i + pat.len())
    } else {
        seq![sym[i]] + spec_rewrite(sym, pat, res, i + 1)
    }
}

/// With an empty pattern, rewriting copies the word unchanged.
proof fn lemma_rewrite_empty_pattern(
    sym: Seq<Seq<char>>,
    pat: Seq<Seq<char>>,
    res: Seq<Seq<char>>,
    i: int,
)
    requires
        pat.len() == 0,
        0 <= i <= sym.len(),
    ensures
        spec_rewrite(sym, pat, res, i) == sym.subrange(i, sym.len() as int),
    decreases sym.len() - i,
{
    if i >= sym.len() {
        assert(spec_rewrite(sym, pat, res, i) =~= sym.subrange(i, sym.len() as int));
    } else {
        lemma_rewrite_empty_pattern(sym, pat, res, i + 1);
        assert(spec_rewrite(sym, pat, res, i) =~= sym.subrange(i, sym.len() as int));
    }
}

/// The pattern occurs in `syms` at position `i`.
fn match_at(syms: &Vec<Symbol>, pat: &Vec<Symbol>, i: usize) -> (r: bool)
    requires
        i <= syms@.len(),
    ensures
        r == spec_match_at(syms_view(syms@), syms_view(pat@), i as int),
{
    let n = syms.len();
    if pat.len() > n - i {
        return false;
    }
    let mut j: usize = 0;
    while j < pat.len()
        invariant
            n == syms@.len(),
            i + pat@.len() <= n,
            0 <= j <= pat@.len(),
            forall|k: int| 0 <= k < j ==> syms_view(syms@)[i + k] == syms_view(pat@)[k],
        decreases pat@.len() - j,
    {
        assert(i + j < n);
        if !(pat[j].symbol == syms[i + j].symbol) {
            assert(syms_view(syms@)[i + j] != syms_view(pat@)[j as int]);
            return false;
        }
        assert(syms_view(syms@)[i + j] == syms_view(pat@)[j as int]);
        j = j + 1;
    }
    true
}

impl Rule {
    /// The rule's pattern, as character sequences.
    pub open spec fn pat(&self) -> Seq<Seq<char>> {
        syms_view(self.pattern@)
    }

    /// The rule's result, as character sequences.
    pub open spec fn res(&self) -> Seq<Seq<char>> {
        syms_view(self.result@)
    }

    /// Replaces every leftmost, non-overlapping occurrence of the rule's
    /// pattern in `w` by the rule's result.
    pub fn apply(&self, w: &mut Word)
        ensures
            final(w)@ == spec_rewrite(old(w)@, self.pat(), self.res(), 0),
    {
        let ghost sym = w@;
        if self.pattern.len() == 0 {
            proof {
                lemma_rewrite_empty_pattern(sym, self.pat(), self.res(), 0);
                assert(sym.subrange(0, sym.len() as int) =~= sym);
            }
            return ;
        }
        let mut out: Vec<Symbol> = Vec::new();
        let mut i: usize = 0;
        while i < w.symbols.len()
            invariant
                w == old(w),
                w@ == sym,
                self.pattern@.len() >= 1,
                0 <= i <= sym.len(),
                syms_view(out@) + spec_rewrite(sym, self.pat(), self.res(), i as int)
                    == spec_rewrite(sym, self.pat(), self.res(), 0),
            decreases sym.len() - i,
        {
            let ghost out0 = syms_view(out@);
            if match_at(&w.symbols, &self.pattern, i) {
                let mut k: usize = 0;
                while k < self.result.len()
                    invariant
                        0 <= k <= self.result@.len(),
                        syms_view(out@) =~= out0 + self.res().take(k as int),
                    decreases self.result@.len() - k,
                {
                    let d = self.result[k].duplicate();
                    let ghost before = out@;
                    proof {
                        assert(d@ == self.res()[k as int]);
                    }
                    out.push(d);
                    proof {
                        assert(out@ == before.push(d));
                        assert(syms_view(out@) =~= syms_view(before).push(d@));
                        assert(syms_view(before).push(d@) =~= out0 + self.res().take(k + 1));
                    }
                    k = k + 1;
                }
                proof {
                    assert(self.res().take(self.result@.len() as int) =~= self.res());
                    assert(spec_rewrite(sym, self.pat(), self.res(), i as int) == self.res()
                        + spec_rewrite(sym, self.pat(), self.res(), i + self.pat().len()));
                    assert(syms_view(out@) + spec_rewrite(
                        sym,
                        self.pat(),
                        self.res(),
                        i + self.pat().len(),
                    ) =~= out0 + spec_rewrite(sym, self.pat(), self.res(), i as int));
                }
                i = i + self.pattern.len();
            } else {
                out.push(w.symbols[i].duplicate());
                proof {
                    assert(spec_rewrite(sym, self.pat(), self.res(), i as int) == seq![sym[i as int]]
                        + spec_rewrite(sym, self.pat(), self.res(), i + 1));
                    assert(syms_view(out@) + spec_rewrite(sym, self.pat(), self.res(), i + 1)
                        =~= out0 + spec_rewrite(sym, self.pat(), self.res(), i as int));
                }
                i = i + 1;
            }
        }
        proof {
            assert(spec_rewrite(sym, self.pat(), self.res(), i as int) =~= Seq::empty());
            assert(syms_view(out@) + Seq::<Seq<char>>::empty() =~= syms_view(out@));
        }
        w.symbols = out;
    }
}

/// An ordered pipeline of rewrite rules.
#[derive(Debug)]
pub struct Lexurgy {
    pub rules: Vec<Rule>,
}

/// Every rule applied to every word, in rule order: the first rule rewrites
/// all words, then the second, and so on.
pub open spec fn spec_pipeline(rules: Seq<Rule>, ws: Seq<Seq<Seq<char>>>) -> Seq<Seq<Seq<char>>>
    decreases rules.len(),
{
    if rules.len() == 0 {
        ws
    } else {
        spec_pipeline(
            rules.drop_first(),
            Seq::new(ws.len(), |i: int| spec_rewrite(ws[i], rules[0].pat(), rules[0].res(), 0)),
        )
    }
}

impl Lexurgy {
    /// Builds the pipeline for a parsed rule file. The syntax tree carries
    /// no symbol-level rewrite pairs, so the pipeline starts empty; the
    /// caller installs its rules directly.
    pub fn from_ast(ast: Vec<ast::Statement>) -> (r: Lexurgy)
        ensures
            r.rules@ == Seq::<Rule>::empty(),
    {
        let _ = ast;
        Lexurgy { rules: Vec::new() }
    }

    /// Applies every rule of the pipeline to every word, in rule order.
    pub fn apply(&self, ws: &mut Vec<Word>)
        ensures
            words_view(final(ws)@) == spec_pipeline(self.rules@, words_view(old(ws)@)),
    {
        let ghost ws0 = words_view(ws@);
        proof {
            assert(self.rules@.skip(0) =~= self.rules@);
        }
        let mut k: usize = 0;
        while k < self.rules.len()
            invariant
                0 <= k <= self.rules@.len(),
                spec_pipeline(self.rules@.skip(k as int), words_view(ws@)) == spec_pipeline(
                    self.rules@,
                    ws0,
                ),
            decreases self.rules@.len() - k,
        {
            let ghost prev = words_view(ws@);
            let rule: &Rule = &self.rules[k];
            let mut out: Vec<Word> = Vec::new();
            while ws.len() > 0
                invariant
                    out@.len() + ws@.len() == prev.len(),
                    forall|i: int|
                        0 <= i < out@.len() ==> words_view(out@)[i] == spec_rewrite(
                            prev[i],
                            rule.pat(),
                            rule.res(),
                            0,
                        ),
                    forall|i: int|
                        0 <= i < ws@.len() ==> words_view(ws@)[i] == prev[out@.len() + i],
                decreases ws@.len(),
            {
                let ghost wsv0 = ws@;
                let ghost outv0 = out@;
                let mut w = ws.remove(0);
                proof {
                    assert(w@ == words_view(wsv0)[0]);
                    assert(words_view(wsv0)[0] == prev[outv0.len() as int]);
                }
                rule.apply(&mut w);
                out.push(w);
                proof {
                    assert(out@ == outv0.push(w));
                    assert forall|i: int|
                        0 <= i < out@.len() implies words_view(out@)[i] == spec_rewrite(
                        prev[i],
                        rule.pat(),
                        rule.res(),
                        0,
                    ) by {
                        if i < outv0.len() {
                            assert(out@[i] == outv0[i]);
                            assert(words_view(outv0)[i] == spec_rewrite(prev[i], rule.pat(), rule.res(), 0));
                        } else {
                            assert(out@[i] == w);
                        }
                    }
                    assert forall|i: int|
                        0 <= i < ws@.len() implies words_view(ws@)[i] == prev[out@.len() + i] by {
                        assert(ws@[i] == wsv0[i + 1]);
                        assert(words_view(wsv0)[i + 1] == prev[outv0.len() + i + 1]);
                    }
                }
            }
            *ws = out;
            proof {
                assert(*rule == self.rules@[k as int]);
                assert(self.rules@.skip(k as int)[0] == self.rules@[k as int]);
                assert(self.rules@.skip(k as int).drop_first() =~= self.rules@.skip(k + 1));
                assert(words_view(ws@) =~= Seq::new(
                    prev.len(),
                    |i: int| spec_rewrite(
                        prev[i],
                        self.rules@.skip(k as int)[0].pat(),
                        self.rules@.skip(k as int)[0].res(),
                        0,
                    ),
                ));
            }
            k = k + 1;
        }
        proof {
            assert(self.rules@.skip(self.rules@.len() as int) =~= Seq::<Rule>::empty());
        }
    }
}

} // verus!

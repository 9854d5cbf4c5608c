//! Extraction of issue tokens such as `FOO-12` from commit subjects.
//!
//! A `ComplexPattern` recognises one notation (`[FOO-1 & FOO-2]`, `(FOO-1, FOO-2)`,
//! `FOO-1 FOO-2`, ...) at the start of a line; a `TokenParser` runs every notation
//! on each line and keeps the longest result, the earliest notation winning ties.
use vstd::prelude::*;

use crate::matcher::{
    capture_group, compile, group_capture, opt_view, regex_accepts, split, split_pieces, Matcher,
};
use crate::text::{digit_run, first_digit_run, lines, lines_of, upper_of, uppercase, views};

verus! {

/// The text of the regular expression that recognises a group of identifiers of
/// `project_id` written between `open_tag` and `close_tag`, separated by
/// `multi_separator`, at the start of a line; the identifiers are captured as `inner`.
pub open spec fn predicate_text(
    project_id: Seq<char>,
    tag_separator: Seq<char>,
    open_tag: Seq<char>,
    close_tag: Seq<char>,
    multi_separator: Seq<char>,
) -> Seq<char> {
    "^(?i)[ ]*"@ + open_tag + "[ ]*(?P<inner>"@ + project_id + tag_separator + "[0-9]+("@
        + multi_separator + project_id + tag_separator + "[0-9]+)*)[ ]*"@ + close_tag
}

/// A segment names an identifier when it holds a decimal digit.
pub open spec fn names_identifier(segment: Seq<char>) -> bool {
    first_digit_run(segment).len() > 0
}

/// The canonical token of a segment: the project, a dash, the segment's first digit run.
pub open spec fn token_of(project: Seq<char>, segment: Seq<char>) -> Seq<char> {
    project + seq!['-'] + first_digit_run(segment)
}

/// The tokens of the segments that name an identifier, in order.
pub open spec fn tokens_of(project: Seq<char>, segments: Seq<Seq<char>>) -> Seq<Seq<char>> {
    segments.filter(|s: Seq<char>| names_identifier(s)).map_values(
        |s: Seq<char>| token_of(project, s),
    )
}

/// What a pattern is: the upper-cased project, and the texts of its two expressions.
pub ghost struct PatternModel {
    pub project: Seq<char>,
    pub predicate: Seq<char>,
    pub splitter: Seq<char>,
}

impl PatternModel {
    /// The tokens this pattern finds on `line`, or `None` when the line does not
    /// start with a group in its notation.
    pub open spec fn find(self, line: Seq<char>) -> Option<Seq<Seq<char>>> {
        match group_capture(self.predicate, line, "inner"@) {
            None => None,
            Some(inner) => Some(tokens_of(self.project, split_pieces(self.splitter, inner))),
        }
    }
}

/// A pattern's expression failed to compile; `pattern` is its text.
#[derive(Debug)]
pub struct PatternBuildError {
    pub pattern: String,
}

/// One notation for writing issue identifiers, compiled for one project.
pub struct ComplexPattern {
    project_id: String,
    predicate: Matcher,
    splitter: Matcher,
}

impl View for ComplexPattern {
    type V = PatternModel;

    closed spec fn view(&self) -> PatternModel {
        PatternModel {
            project: self.project_id@,
            predicate: self.predicate.pattern(),
            splitter: self.splitter.pattern(),
        }
    }
}

/// The model of the pattern built from these arguments.
pub open spec fn pattern_model(
    project_id: Seq<char>,
    tag_separator: Seq<char>,
    open_tag: Seq<char>,
    close_tag: Seq<char>,
    multi_separator: Seq<char>,
) -> PatternModel {
    PatternModel {
        project: upper_of(project_id),
        predicate: predicate_text(project_id, tag_separator, open_tag, close_tag, multi_separator),
        splitter: multi_separator,
    }
}

/// The views of an optional list of strings.
pub open spec fn opt_views(o: Option<Vec<String>>) -> Option<Seq<Seq<char>>> {
    match o {
        Some(v) => Some(views(v@)),
        None => None,
    }
}

impl ComplexPattern {
    /// The text of the predicate expression (see `predicate_text`).
    pub fn predicate(
        project_id: &str,
        tag_seperator: &str,
        open_tag: &str,
        close_tag: &str,
        multi_separator: &str,
    ) -> (r: String)
        ensures
            r@ == predicate_text(
                project_id@,
                tag_seperator@,
                open_tag@,
                close_tag@,
                multi_separator@,
            ),
    {
        let mut s = String::new();
        s.append("^(?i)[ ]*");
        s.append(open_tag);
        s.append("[ ]*(?P<inner>");
        s.append(project_id);
        s.append(tag_seperator);
        s.append("[0-9]+(");
        s.append(multi_separator);
        s.append(project_id);
        s.append(tag_seperator);
        s.append("[0-9]+)*)[ ]*");
        s.append(close_tag);
        assert(s@ =~= predicate_text(
            project_id@,
            tag_seperator@,
            open_tag@,
            close_tag@,
            multi_separator@,
        ));
        s
    }

    /// Compiles the predicate and the splitter for one notation. Fails, naming the
    /// expression, when the predicate or else the splitter does not compile.
    pub fn new(
        project_id: &str,
        tag_seperator: &str,
        open_tag: &str,
        close_tag: &str,
        multi_separator: &str,
    ) -> (r: Result<ComplexPattern, PatternBuildError>)
        ensures
            ({
                let pred = predicate_text(
                    project_id@,
                    tag_seperator@,
                    open_tag@,
                    close_tag@,
                    multi_separator@,
                );
                &&& r is Ok <==> regex_accepts(pred) && regex_accepts(multi_separator@)
                &&& r matches Ok(p) ==> p@ == pattern_model(
                    project_id@,
                    tag_seperator@,
                    open_tag@,
                    close_tag@,
                    multi_separator@,
                )
                &&& r matches Err(e) ==> e.pattern@ == if !regex_accepts(pred) {
                    pred
                } else {
                    multi_separator@
                }
            }),
    {
        let pred_str = ComplexPattern::predicate(
            project_id,
            tag_seperator,
            open_tag,
            close_tag,
            multi_separator,
        );
        let predicate = match compile(pred_str.as_str()) {
            Ok(m) => m,
            Err(_) => {
                return Err(PatternBuildError { pattern: pred_str });
            },
        };
        let splitter = match compile(multi_separator) {
            Ok(m) => m,
            Err(_) => {
                return Err(PatternBuildError { pattern: String::from_str(multi_separator) });
            },
        };
        Ok(ComplexPattern { project_id: uppercase(project_id), predicate, splitter })
    }

    /// The tokens of the group at the start of `log`, or `None` when there is none.
    /// The group is split with the splitter; a piece without a digit names no
    /// identifier and gives no token, rather than a token with an empty number.
    pub fn find(&self, log: &str) -> (r: Option<Vec<String>>)
        ensures
            opt_views(r) == self@.find(log@),
    {
        let inner = match capture_group(&self.predicate, log, "inner") {
            Some(inner) => inner,
            None => {
                return None;
            },
        };
        let segments = split(&self.splitter, inner.as_str());
        let ghost segs = views(segments@);
        let mut identifiers: Vec<String> = Vec::new();
        let mut i: usize = 0;
        while i < segments.len()
            invariant
                i <= segments@.len(),
                segs == views(segments@),
                views(identifiers@) == tokens_of(self.project_id@, segs.take(i as int)),
            decreases segments@.len() - i,
        {
            let digits = digit_run(segments[i].as_str());
            let ghost before = identifiers@;
            proof {
                assert(segs.take(i + 1) =~= segs.take(i as int).push(segs[i as int]));
                segs.take(i as int).lemma_filter_push(segs[i as int], |s: Seq<char>| names_identifier(s));
            }
            if !digits.as_str().is_empty() {
                let mut iden = self.project_id.clone();
                iden.append("-");
                iden.append(digits.as_str());
                identifiers.push(iden);
                proof {
                    reveal_strlit("-");
                    assert(iden@ =~= token_of(self.project_id@, segs[i as int]));
                    assert(views(identifiers@) =~= views(before).push(iden@));
                }
            }
            i = i + 1;
        }
        proof {
            assert(segs.take(segs.len() as int) =~= segs);
        }
        Some(identifiers)
    }
}

/// One notation, as regular-expression text: the separator between project and
/// number, the delimiters around the group, and the separator between identifiers.
pub struct ShapeSpec {
    pub tag_separator: &'static str,
    pub open_tag: &'static str,
    pub close_tag: &'static str,
    pub multi_separator: &'static str,
}

/// The four texts of a notation.
pub ghost struct ShapeModel {
    pub tag_separator: Seq<char>,
    pub open_tag: Seq<char>,
    pub close_tag: Seq<char>,
    pub multi_separator: Seq<char>,
}

impl View for ShapeSpec {
    type V = ShapeModel;

    open spec fn view(&self) -> ShapeModel {
        ShapeModel {
            tag_separator: self.tag_separator@,
            open_tag: self.open_tag@,
            close_tag: self.close_tag@,
            multi_separator: self.multi_separator@,
        }
    }
}

/// The supported notations, in order of precedence.
pub open spec fn shape_table() -> Seq<ShapeModel> {
    seq![
        // [FOO-1 & FOO-2]
        ShapeModel {
            tag_separator: "-"@,
            open_tag: "\\["@,
            close_tag: "\\]"@,
            multi_separator: "[ ]+&[ ]+"@,
        },
        // (FOO-1 FOO-2)
        ShapeModel {
            tag_separator: "-"@,
            open_tag: "[(]"@,
            close_tag: "[)]"@,
            multi_separator: "[ ]+"@,
        },
        // (FOO-1, FOO-2)
        ShapeModel {
            tag_separator: "-"@,
            open_tag: "[(]"@,
            close_tag: "[)]"@,
            multi_separator: "[ ]*,[ ]+"@,
        },
        // FOO-1 FOO-2
        ShapeModel { tag_separator: "-"@, open_tag: ""@, close_tag: ""@, multi_separator: "[ ]+"@ },
        // FOO-1, FOO-2
        ShapeModel {
            tag_separator: "-"@,
            open_tag: ""@,
            close_tag: ""@,
            multi_separator: "[ ]*,[ ]+"@,
        },
    ]
}

/// The supported notations, in order of precedence.
pub fn shapes() -> (r: Vec<ShapeSpec>)
    ensures
        r@.map_values(|sh: ShapeSpec| sh@) == shape_table(),
{
    let r = vec![
        ShapeSpec {
            tag_separator: "-",
            open_tag: "\\[",
            close_tag: "\\]",
            multi_separator: "[ ]+&[ ]+",
        },
        ShapeSpec { tag_separator: "-", open_tag: "[(]", close_tag: "[)]", multi_separator: "[ ]+" },
        ShapeSpec {
            tag_separator: "-",
            open_tag: "[(]",
            close_tag: "[)]",
            multi_separator: "[ ]*,[ ]+",
        },
        ShapeSpec { tag_separator: "-", open_tag: "", close_tag: "", multi_separator: "[ ]+" },
        ShapeSpec { tag_separator: "-", open_tag: "", close_tag: "", multi_separator: "[ ]*,[ ]+" },
    ];
    assert(r@.map_values(|sh: ShapeSpec| sh@) =~= shape_table());
    r
}

/// Both expressions of notation `sh` compile for `project_id`.
pub open spec fn shape_compiles(project_id: Seq<char>, sh: ShapeModel) -> bool {
    &&& regex_accepts(
        predicate_text(project_id, sh.tag_separator, sh.open_tag, sh.close_tag, sh.multi_separator),
    )
    &&& regex_accepts(sh.multi_separator)
}

/// The expression named by the error when notation `sh` does not compile for `project_id`.
pub open spec fn shape_error(project_id: Seq<char>, sh: ShapeModel) -> Seq<char> {
    let pred = predicate_text(
        project_id,
        sh.tag_separator,
        sh.open_tag,
        sh.close_tag,
        sh.multi_separator,
    );
    if !regex_accepts(pred) {
        pred
    } else {
        sh.multi_separator
    }
}

/// The model of the pattern for notation `sh` and `project_id`.
pub open spec fn shape_pattern(project_id: Seq<char>, sh: ShapeModel) -> PatternModel {
    pattern_model(project_id, sh.tag_separator, sh.open_tag, sh.close_tag, sh.multi_separator)
}

/// The patterns of a parser for `project_id`: one per notation, in table order.
pub open spec fn parser_model(project_id: Seq<char>) -> Seq<PatternModel> {
    shape_table().map_values(|sh: ShapeModel| shape_pattern(project_id, sh))
}

/// The result kept for a line among the patterns' results `cands`, taken in order:
/// a result replaces the one kept so far only when it has strictly more tokens.
pub open spec fn best_of(cands: Seq<Option<Seq<Seq<char>>>>) -> Seq<Seq<char>>
    decreases cands.len(),
{
    if cands.len() == 0 {
        seq![]
    } else {
        let kept = best_of(cands.drop_last());
        match cands.last() {
            Some(found) => if found.len() > kept.len() {
                found
            } else {
                kept
            },
            None => kept,
        }
    }
}

/// The tokens that `patterns` give for one line.
pub open spec fn line_tokens(patterns: Seq<PatternModel>, line: Seq<char>) -> Seq<Seq<char>> {
    best_of(patterns.map_values(|p: PatternModel| p.find(line)))
}

/// The tokens that `patterns` give for `logs`: each line's tokens, line after line.
pub open spec fn parse_tokens(patterns: Seq<PatternModel>, logs: Seq<char>) -> Seq<Seq<char>> {
    lines_of(logs).map_values(|line: Seq<char>| line_tokens(patterns, line)).flatten()
}

/// The patterns of every supported notation for one project.
pub struct TokenParser {
    patterns: Vec<ComplexPattern>,
}

impl View for TokenParser {
    type V = Seq<PatternModel>;

    closed spec fn view(&self) -> Seq<PatternModel> {
        self.patterns@.map_values(|p: ComplexPattern| p@)
    }
}

impl TokenParser {
    /// Builds one pattern per entry of `shape_table()`, in order. Fails with the
    /// error of the first notation whose expressions do not compile.
    pub fn new(project_id: &str) -> (r: Result<TokenParser, PatternBuildError>)
        ensures
            r is Ok <==> forall|k: int|
                0 <= k < shape_table().len() ==> shape_compiles(project_id@, #[trigger] shape_table()[k]),
            r matches Ok(t) ==> t@ == parser_model(project_id@),
            r matches Err(e) ==> exists|k: int|
                0 <= k < shape_table().len() && !shape_compiles(project_id@, #[trigger] shape_table()[k])
                    && (forall|j: int| 0 <= j < k ==> shape_compiles(project_id@, shape_table()[j]))
                    && e.pattern@ == shape_error(project_id@, shape_table()[k]),
    {
        let table = shapes();
        let ghost tab = shape_table();
        let mut patterns: Vec<ComplexPattern> = Vec::new();
        let mut k: usize = 0;
        while k < table.len()
            invariant
                k <= table@.len(),
                table@.map_values(|sh: ShapeSpec| sh@) == tab,
                tab == shape_table(),
                forall|j: int| 0 <= j < k ==> shape_compiles(project_id@, #[trigger] tab[j]),
                patterns@.map_values(|p: ComplexPattern| p@) == tab.take(k as int).map_values(
                    |sh: ShapeModel| shape_pattern(project_id@, sh),
                ),
            decreases table@.len() - k,
        {
            let sh = &table[k];
            assert(sh@ == tab[k as int]);
            match ComplexPattern::new(
                project_id,
                sh.tag_separator,
                sh.open_tag,
                sh.close_tag,
                sh.multi_separator,
            ) {
                Ok(p) => {
                    let ghost before = patterns@;
                    patterns.push(p);
                    assert(tab.take(k + 1) =~= tab.take(k as int).push(tab[k as int]));
                    assert(patterns@.map_values(|p: ComplexPattern| p@) =~= before.map_values(
                        |p: ComplexPattern| p@,
                    ).push(p@));
                    assert(tab.take(k + 1).map_values(
                        |sh: ShapeModel| shape_pattern(project_id@, sh),
                    ) =~= tab.take(k as int).map_values(
                        |sh: ShapeModel| shape_pattern(project_id@, sh),
                    ).push(shape_pattern(project_id@, tab[k as int])));
                },
                Err(e) => {
                    return Err(e);
                },
            }
            k = k + 1;
        }
        assert(tab.take(k as int) =~= tab);
        Ok(TokenParser { patterns })
    }

    /// The tokens of `logs`, line by line: on each line every pattern is tried in
    /// order and the first result with the most tokens is kept.
    pub fn parse(&self, logs: &str) -> (r: Vec<String>)
        ensures
            views(r@) == parse_tokens(self@, logs@),
    {
        let all_lines = lines(logs);
        let ghost ls = views(all_lines@);
        let ghost pats = self@;
        let mut jira_tokens: Vec<String> = Vec::new();
        let mut i: usize = 0;
        while i < all_lines.len()
            invariant
                i <= all_lines@.len(),
                ls == views(all_lines@),
                ls == lines_of(logs@),
                pats == self@,
                views(jira_tokens@) == ls.take(i as int).map_values(
                    |line: Seq<char>| line_tokens(pats, line),
                ).flatten(),
            decreases all_lines@.len() - i,
        {
            let log = all_lines[i].as_str();
            let ghost cands = pats.map_values(|p: PatternModel| p.find(log@));
            let mut tokens: Vec<String> = Vec::new();
            let mut k: usize = 0;
            while k < self.patterns.len()
                invariant
                    k <= self.patterns@.len(),
                    pats == self.patterns@.map_values(|p: ComplexPattern| p@),
                    cands == pats.map_values(|p: PatternModel| p.find(log@)),
                    views(tokens@) == best_of(cands.take(k as int)),
                decreases self.patterns@.len() - k,
            {
                let found = self.patterns[k].find(log);
                assert(cands.take(k + 1).drop_last() =~= cands.take(k as int));
                match found {
                    Some(found) => {
                        if tokens.len() < found.len() {
                            tokens = found;
                        }
                    },
                    None => {},
                }
                k = k + 1;
            }
            assert(cands.take(k as int) =~= cands);
            let ghost before = jira_tokens@;
            let ghost line_toks = views(tokens@);
            jira_tokens.append(&mut tokens);
            proof {
                assert(views(jira_tokens@) =~= views(before) + line_toks);
                assert(ls.take(i + 1) =~= ls.take(i as int).push(ls[i as int]));
                let f = |line: Seq<char>| line_tokens(pats, line);
                assert(ls.take(i + 1).map_values(f) =~= ls.take(i as int).map_values(f).push(
                    f(ls[i as int]),
                ));
                ls.take(i as int).map_values(f).lemma_flatten_push(f(ls[i as int]));
            }
            i = i + 1;
        }
        proof {
            assert(ls.take(i as int) =~= ls);
        }
        jira_tokens
    }
}

} // verus!

//! URL templates: literal text interspersed with escapes for the tile
//! column, the tile row and the side of the panorama.
//!
//! An escape is a `%`, any number of `0` characters that set the zero-padded
//! width, and one letter: `h`, `x`, `u` or `c` for the column, `v`, `y` or
//! `r` for the row, `s` for the side.

use crate::chars::{
    in_run, lemma_run_len_bounds, lemma_run_len_unique, lemma_run_taken, run_len, take_run,
};
use std::sync::Arc;
use vstd::prelude::*;
use vstd::std_specs::iter::IteratorSpec;
use vstd::string::StrSliceExecFns;
use vstd::string::StringExecFns;

verus! {

/// A variable of a template as it is written.
#[derive(Debug, Clone, Copy, PartialEq, Eq)]
pub enum TemplateVariable {
    X,
    Y,
    Side,
}

/// A variable of a template once the side is chosen.
#[derive(Debug, Clone, Copy, PartialEq, Eq)]
pub enum XY {
    X,
    Y,
}

/// One part of a template: a run of literal text, or a variable with the
/// width to which its value is padded with zeros.
#[derive(Debug, PartialEq)]
pub enum TemplateStringPart<T> {
    Literal(Arc<String>),
    Variable { padding: u32, variable: T },
}

/// A tokenized template.
#[derive(Debug, PartialEq)]
pub struct TemplateString<T>(pub Vec<TemplateStringPart<T>>);

/// What a part of a template holds.
pub enum Part<T> {
    Literal(Seq<char>),
    Variable { padding: u32, variable: T },
}

impl<T> View for TemplateStringPart<T> {
    type V = Part<T>;

    open spec fn view(&self) -> Part<T> {
        match *self {
            TemplateStringPart::Literal(text) => Part::Literal(text@),
            TemplateStringPart::Variable { padding, variable } => Part::Variable {
                padding,
                variable,
            },
        }
    }
}

impl<T> View for TemplateString<T> {
    type V = Seq<Part<T>>;

    open spec fn view(&self) -> Seq<Part<T>> {
        self.0@.map_values(|part: TemplateStringPart<T>| part@)
    }
}

/// Another handle to the same text.
///
/// This is `Arc::clone`. The contract is not proved. It claims what std
/// documents: the new pointer points to the same allocation, so both hold
/// the same text.
#[verifier::external_body]
fn share(text: &Arc<String>) -> (shared: Arc<String>)
    ensures
        shared == *text,
{
    Arc::clone(text)
}

impl<T: Copy> Clone for TemplateStringPart<T> {
    /// A copy of the part. A literal is shared, not copied.
    fn clone(&self) -> (part: Self)
        ensures
            part == *self,
    {
        match self {
            TemplateStringPart::Literal(text) => TemplateStringPart::Literal(share(text)),
            TemplateStringPart::Variable { padding, variable } => TemplateStringPart::Variable {
                padding: *padding,
                variable: *variable,
            },
        }
    }
}

impl<T: Copy> Clone for TemplateString<T> {
    /// A template with the same parts, which shares its literals with this one.
    fn clone(&self) -> (template: Self)
        ensures
            template.0@ == self.0@,
            template@ == self@,
    {
        let mut parts: Vec<TemplateStringPart<T>> = Vec::new();
        let mut i: usize = 0;
        while i < self.0.len()
            invariant
                i <= self.0.len(),
                parts@ == self.0@.take(i as int),
            decreases self.0.len() - i,
        {
            parts.push(self.0[i].clone());
            proof {
                assert(parts@ =~= self.0@.take(i as int + 1));
            }
            i = i + 1;
        }
        proof {
            assert(parts@ =~= self.0@);
        }
        TemplateString(parts)
    }
}

/// Why a text is no template.
pub enum TemplateError {
    /// An escape names a variable that does not exist.
    UnknownVariable(char),
    /// The text ends inside an escape.
    IncompleteEscape,
}

/// The variable that the letter of an escape selects.
pub open spec fn variable_of(c: char) -> Option<TemplateVariable> {
    if c == 'h' || c == 'x' || c == 'u' || c == 'c' {
        Some(TemplateVariable::X)
    } else if c == 'v' || c == 'y' || c == 'r' {
        Some(TemplateVariable::Y)
    } else if c == 's' {
        Some(TemplateVariable::Side)
    } else {
        None
    }
}

/// `parts` in front of what the rest of a text tokenizes to.
pub open spec fn after_parts(
    parts: Seq<Part<TemplateVariable>>,
    rest: Result<Seq<Part<TemplateVariable>>, TemplateError>,
) -> Result<Seq<Part<TemplateVariable>>, TemplateError> {
    match rest {
        Ok(more) => Ok(parts + more),
        Err(e) => Err(e),
    }
}

/// The parts of the template `s`, or the first error in it.
///
/// A template is a literal, then any number of times an escape and a
/// literal. A literal runs up to the next `%` or the end of the text and may
/// be empty. The padding of an escape is the number of `0` characters after
/// its `%`, reduced to 32 bits.
pub open spec fn tokenize(s: Seq<char>) -> Result<Seq<Part<TemplateVariable>>, TemplateError>
    decreases s.len(),
{
    let text = run_len(s, '%', false);
    let literal = Part::<TemplateVariable>::Literal(s.take(text as int));
    if text >= s.len() {
        Ok(seq![literal])
    } else {
        let escape = s.skip(text as int + 1);
        let zeros = run_len(escape, '0', true);
        if zeros >= escape.len() {
            Err(TemplateError::IncompleteEscape)
        } else {
            match variable_of(escape[zeros as int]) {
                None => Err(TemplateError::UnknownVariable(escape[zeros as int])),
                Some(variable) => after_parts(
                    seq![literal, Part::Variable { padding: zeros as u32, variable }],
                    tokenize(escape.skip(zeros as int + 1)),
                ),
            }
        }
    }
}

impl TemplateError {
    /// The message that reports this error in the template `input`.
    pub open spec fn message(self, input: Seq<char>) -> Seq<char> {
        match self {
            TemplateError::UnknownVariable(c) => "Unknown template variable '"@.push(c)
                + "' in '"@ + input + "'"@,
            TemplateError::IncompleteEscape => "Invalid templating syntax in '"@ + input + "'"@,
        }
    }
}

/// `String::push` appends the character to the text, as std documents.
pub assume_specification[ String::push ](text: &mut String, c: char)
    ensures
        final(text)@ == old(text)@.push(c),
;

/// The message for an escape that names the unknown variable `c`.
fn unknown_variable_message(c: char, input: &str) -> (message: String)
    ensures
        message@ == TemplateError::UnknownVariable(c).message(input@),
{
    let mut message = String::from_str("Unknown template variable '");
    message.push(c);
    message.append("' in '");
    message.append(input);
    message.append("'");
    message
}

/// The message for a text that ends inside an escape.
fn incomplete_escape_message(input: &str) -> (message: String)
    ensures
        message@ == TemplateError::IncompleteEscape.message(input@),
{
    let mut message = String::from_str("Invalid templating syntax in '");
    message.append(input);
    message.append("'");
    message
}

/// The variable that the letter of an escape selects.
fn variable_for(c: char) -> (variable: Option<TemplateVariable>)
    ensures
        variable == variable_of(c),
{
    if c == 'h' || c == 'x' || c == 'u' || c == 'c' {
        Some(TemplateVariable::X)
    } else if c == 'v' || c == 'y' || c == 'r' {
        Some(TemplateVariable::Y)
    } else if c == 's' {
        Some(TemplateVariable::Side)
    } else {
        None
    }
}

/// The letter that stands for a variable when a template is written out.
pub open spec fn symbol_of(variable: TemplateVariable) -> char {
    match variable {
        TemplateVariable::X => 'h',
        TemplateVariable::Y => 'v',
        TemplateVariable::Side => 's',
    }
}

/// `n` times the character `0`.
pub open spec fn zeros(n: nat) -> Seq<char> {
    Seq::new(n, |i: int| '0')
}

/// A part as it is written in a template.
pub open spec fn render_part(part: Part<TemplateVariable>) -> Seq<char> {
    match part {
        Part::Literal(text) => text,
        Part::Variable { padding, variable } => seq!['%'] + zeros(padding as nat) + seq![
            symbol_of(variable),
        ],
    }
}

/// The parts written out one after the other.
pub open spec fn render(parts: Seq<Part<TemplateVariable>>) -> Seq<char>
    decreases parts.len(),
{
    if parts.len() == 0 {
        Seq::empty()
    } else {
        render_part(parts[0]) + render(parts.drop_first())
    }
}

/// Writing a template out and tokenizing it again gives the parts back:
/// where `s` is a template with the parts `parts`, the text `render(parts)`
/// is a template with the same parts.
pub proof fn lemma_render_keeps_parts(s: Seq<char>, parts: Seq<Part<TemplateVariable>>)
    requires
        tokenize(s) == Ok::<Seq<Part<TemplateVariable>>, TemplateError>(parts),
    ensures
        tokenize(render(parts)) == Ok::<Seq<Part<TemplateVariable>>, TemplateError>(parts),
    decreases s.len(),
{
    let text = run_len(s, '%', false);
    let literal = s.take(text as int);
    lemma_run_len_bounds(s, '%', false);
    if text >= s.len() {
        assert(literal =~= s);
        assert(parts =~= seq![Part::Literal(literal)]);
        assert(parts.drop_first() =~= Seq::empty());
        assert(render(parts.drop_first()) =~= Seq::empty());
        assert(render(parts) =~= s);
    } else {
        let escape = s.skip(text as int + 1);
        let width = run_len(escape, '0', true);
        lemma_run_len_bounds(escape, '0', true);
        let variable = variable_of(escape[width as int])->0;
        let padding = #[verifier::truncate] (width as u32);
        let tail = escape.skip(width as int + 1);
        let more = tokenize(tail)->Ok_0;
        lemma_render_keeps_parts(tail, more);
        let first = Part::<TemplateVariable>::Literal(literal);
        let second = Part::Variable { padding, variable };
        assert(parts =~= seq![first, second] + more);
        assert(parts.drop_first() =~= seq![second] + more);
        assert(parts.drop_first().drop_first() =~= more);
        let written = render(parts);
        let written_escape = zeros(padding as nat) + seq![symbol_of(variable)] + render(more);
        assert(render(more) == render(parts.drop_first().drop_first()));
        assert(render(parts.drop_first()) == render_part(second) + render(more));
        assert(written == render_part(first) + render(parts.drop_first()));
        assert(written =~= literal + seq!['%'] + written_escape);
        assert forall|i: int| 0 <= i < text implies in_run(#[trigger] written[i], '%', false) by {
            assert(written[i] == s[i]);
        }
        lemma_run_len_unique(written, '%', false, text);
        assert(written.take(text as int) =~= literal);
        assert(written.skip(text as int + 1) =~= written_escape);
        lemma_run_len_unique(written_escape, '0', true, padding as nat);
        assert(written_escape.skip(padding as int + 1) =~= render(more));
    }
}

/// Whether `s` is a template in which each escape has fewer than 2^32 zeros
/// and one of the letters `h`, `v` and `s`, with which templates are written
/// out.
pub open spec fn plainly_written(s: Seq<char>) -> bool
    decreases s.len(),
{
    let text = run_len(s, '%', false);
    text >= s.len() || {
        let escape = s.skip(text as int + 1);
        let width = run_len(escape, '0', true);
        &&& width < escape.len()
        &&& width <= u32::MAX
        &&& variable_of(escape[width as int]) matches Some(variable)
        &&& escape[width as int] == symbol_of(variable)
        &&& plainly_written(escape.skip(width as int + 1))
    }
}

/// Writing out the parts of a plainly written template gives the template
/// back, character for character.
pub proof fn lemma_render_reproduces(s: Seq<char>)
    requires
        plainly_written(s),
    ensures
        tokenize(s) is Ok,
        render(tokenize(s)->Ok_0) == s,
    decreases s.len(),
{
    let text = run_len(s, '%', false);
    let literal = s.take(text as int);
    lemma_run_len_bounds(s, '%', false);
    let parts = tokenize(s)->Ok_0;
    if text >= s.len() {
        assert(literal =~= s);
        assert(parts =~= seq![Part::Literal(literal)]);
        assert(parts.drop_first() =~= Seq::empty());
        assert(render(parts.drop_first()) =~= Seq::empty());
        assert(render(parts) =~= s);
    } else {
        let escape = s.skip(text as int + 1);
        let width = run_len(escape, '0', true);
        lemma_run_len_bounds(escape, '0', true);
        let variable = variable_of(escape[width as int])->0;
        let padding = width as u32;
        let tail = escape.skip(width as int + 1);
        lemma_render_reproduces(tail);
        let more = tokenize(tail)->Ok_0;
        let first = Part::<TemplateVariable>::Literal(literal);
        let second = Part::Variable { padding, variable };
        assert(parts =~= seq![first, second] + more);
        assert(parts.drop_first() =~= seq![second] + more);
        assert(parts.drop_first().drop_first() =~= more);
        assert(render(more) == render(parts.drop_first().drop_first()));
        assert(render(parts.drop_first()) == render_part(second) + render(more));
        assert(render(parts) == render_part(first) + render(parts.drop_first()));
        assert(escape.take(width as int) =~= zeros(width));
        assert(escape =~= zeros(width) + seq![symbol_of(variable)] + tail);
        assert(s =~= literal + seq!['%'] + escape);
        assert(render(parts) =~= s);
    }
}

/// The letter that stands for a variable when a template is written out.
fn symbol_for(variable: TemplateVariable) -> (c: char)
    ensures
        c == symbol_of(variable),
{
    match variable {
        TemplateVariable::X => 'h',
        TemplateVariable::Y => 'v',
        TemplateVariable::Side => 's',
    }
}

impl TemplateString<TemplateVariable> {
    /// Tokenizes a template.
    ///
    /// Returns the parts of `input` where it is a template, and otherwise the
    /// message for the first error in it.
    pub fn from_str(input: &str) -> (result: Result<TemplateString<TemplateVariable>, String>)
        ensures
            match tokenize(input@) {
                Ok(parts) => result matches Ok(template) && template@ == parts,
                Err(e) => result matches Err(message) && message@ == e.message(input@),
            },
    {
        let mut chars = input.chars();
        let mut parts: Vec<TemplateStringPart<TemplateVariable>> = Vec::new();
        let ghost mut done: Seq<Part<TemplateVariable>> = Seq::empty();
        let ghost mut rest: Seq<char> = input@;
        loop
            invariant
                chars.remaining() == rest,
                done == (TemplateString(parts))@,
                tokenize(input@) == after_parts(done, tokenize(rest)),
            decreases rest.len(),
        {
            let text = take_run(&mut chars, '%', false);
            proof {
                lemma_run_taken(rest, text@, '%', false);
            }
            parts.push(TemplateStringPart::Literal(Arc::new(text)));
            let ghost literal = Part::<TemplateVariable>::Literal(text@);
            if chars.next().is_none() {
                proof {
                    assert((TemplateString(parts))@ =~= done + seq![literal]);
                }
                return Ok(TemplateString(parts));
            }
            let ghost escape = rest.skip(text@.len() as int + 1);
            assert(chars.remaining() == escape);
            let zeros = take_run(&mut chars, '0', true);
            proof {
                lemma_run_taken(escape, zeros@, '0', true);
            }
            let padding = #[verifier::truncate] (zeros.as_str().unicode_len() as u32);
            match chars.next() {
                None => {
                    return Err(incomplete_escape_message(input));
                },
                Some(c) => {
                    match variable_for(c) {
                        None => {
                            return Err(unknown_variable_message(c, input));
                        },
                        Some(variable) => {
                            parts.push(TemplateStringPart::Variable { padding, variable });
                            proof {
                                let step = seq![literal, Part::Variable { padding, variable }];
                                let tail = escape.skip(zeros@.len() as int + 1);
                                assert((TemplateString(parts))@ =~= done + step);
                                assert(tokenize(rest) == after_parts(step, tokenize(tail)));
                                if let Ok(more) = tokenize(tail) {
                                    assert(done + (step + more) =~= (done + step) + more);
                                }
                                done = done + step;
                                rest = tail;
                            }
                        },
                    }
                },
            }
        }
    }

    /// Writes the template out: the literals as they are, each variable as
    /// `%`, as many `0` characters as its padding, and its letter.
    pub fn render(&self) -> (text: String)
        ensures
            text@ == render(self@),
    {
        let mut text = String::new();
        let mut i: usize = 0;
        proof {
            assert(self@.skip(0) =~= self@);
            assert(text@ + render(self@) =~= render(self@));
        }
        while i < self.0.len()
            invariant
                i <= self.0.len(),
                text@ + render(self@.skip(i as int)) == render(self@),
            decreases self.0.len() - i,
        {
            let ghost before = text@;
            let ghost tail = self@.skip(i as int);
            proof {
                assert(tail.drop_first() =~= self@.skip(i as int + 1));
                assert(tail[0] == self.0[i as int]@);
            }
            match &self.0[i] {
                TemplateStringPart::Literal(literal) => {
                    text.append(literal.as_str());
                },
                TemplateStringPart::Variable { padding, variable } => {
                    text.push('%');
                    let mut k: u32 = 0;
                    while k < *padding
                        invariant
                            k <= *padding,
                            text@ == before + seq!['%'] + zeros(k as nat),
                        decreases *padding - k,
                    {
                        text.push('0');
                        k = k + 1;
                        proof {
                            assert(zeros(k as nat) =~= zeros((k - 1) as nat).push('0'));
                            assert(text@ =~= before + seq!['%'] + zeros(k as nat));
                        }
                    }
                    text.push(symbol_for(*variable));
                },
            }
            proof {
                assert(text@ =~= before + render_part(tail[0]));
                assert(before + (render_part(tail[0]) + render(tail.drop_first())) =~= (before
                    + render_part(tail[0])) + render(tail.drop_first()));
            }
            i = i + 1;
        }
        proof {
            assert(text@ =~= text@ + render(self@.skip(i as int)));
        }
        text
    }
}

impl std::str::FromStr for TemplateString<TemplateVariable> {
    type Err = String;

    /// Tokenizes a template, as `TemplateString::from_str` does.
    fn from_str(input: &str) -> (result: Result<Self, String>)
        ensures
            match tokenize(input@) {
                Ok(parts) => result matches Ok(template) && template@ == parts,
                Err(e) => result matches Err(message) && message@ == e.message(input@),
            },
    {
        TemplateString::<TemplateVariable>::from_str(input)
    }
}

/// Whether a part is the side variable.
pub open spec fn is_side(part: Part<TemplateVariable>) -> bool {
    part matches Part::Variable { variable: TemplateVariable::Side, .. }
}

/// Whether a template holds the side variable.
pub open spec fn has_side(parts: Seq<Part<TemplateVariable>>) -> bool {
    exists|i: int| 0 <= i < parts.len() && is_side(#[trigger] parts[i])
}

/// A part for the side named `side`: the side variable becomes the first
/// character of the name as a literal, whatever its padding.
pub open spec fn part_with_side(part: Part<TemplateVariable>, side: Seq<char>) -> Part<XY> {
    match part {
        Part::Literal(text) => Part::Literal(text),
        Part::Variable { padding, variable } => match variable {
            TemplateVariable::X => Part::Variable { padding, variable: XY::X },
            TemplateVariable::Y => Part::Variable { padding, variable: XY::Y },
            TemplateVariable::Side => Part::Literal(side.take(1)),
        },
    }
}

/// A template for the side named `side`.
pub open spec fn with_side(parts: Seq<Part<TemplateVariable>>, side: Seq<char>) -> Seq<Part<XY>> {
    parts.map_values(|part: Part<TemplateVariable>| part_with_side(part, side))
}

/// The names of the six sides of a panorama, in the order of their expansion.
pub open spec fn side_names() -> Seq<Seq<char>> {
    seq!["forward"@, "back"@, "left"@, "right"@, "up"@, "down"@]
}

/// The names of the sides that a template expands to: the six sides where
/// it holds the side variable, else one side without a name.
pub open spec fn sides_of(parts: Seq<Part<TemplateVariable>>) -> Seq<Seq<char>> {
    if has_side(parts) {
        side_names()
    } else {
        seq![Seq::empty()]
    }
}

/// The letters that stand for the six sides: `f`, `b`, `l`, `r`, `u`, `d`.
pub proof fn lemma_side_letters()
    ensures
        side_names().len() == 6,
        side_names()[0].take(1) == seq!['f'],
        side_names()[1].take(1) == seq!['b'],
        side_names()[2].take(1) == seq!['l'],
        side_names()[3].take(1) == seq!['r'],
        side_names()[4].take(1) == seq!['u'],
        side_names()[5].take(1) == seq!['d'],
{
    reveal_strlit("forward");
    reveal_strlit("back");
    reveal_strlit("left");
    reveal_strlit("right");
    reveal_strlit("up");
    reveal_strlit("down");
    assert(side_names()[0].take(1) =~= seq!['f']);
    assert(side_names()[1].take(1) =~= seq!['b']);
    assert(side_names()[2].take(1) =~= seq!['l']);
    assert(side_names()[3].take(1) =~= seq!['r']);
    assert(side_names()[4].take(1) =~= seq!['u']);
    assert(side_names()[5].take(1) =~= seq!['d']);
}

/// The name of the side at `index`.
fn side_name(index: usize) -> (name: &'static str)
    requires
        index < 6,
    ensures
        name@ == side_names()[index as int],
        name@.len() > 0,
{
    proof {
        reveal_strlit("forward");
        reveal_strlit("back");
        reveal_strlit("left");
        reveal_strlit("right");
        reveal_strlit("up");
        reveal_strlit("down");
    }
    if index == 0 {
        "forward"
    } else if index == 1 {
        "back"
    } else if index == 2 {
        "left"
    } else if index == 3 {
        "right"
    } else if index == 4 {
        "up"
    } else {
        "down"
    }
}

impl TemplateStringPart<TemplateVariable> {
    /// The part for the side named `side`.
    ///
    /// The side variable takes the first character of `side`, so `side` is
    /// not empty where the part is the side variable.
    pub fn with_side(&self, side: &'static str) -> (part: TemplateStringPart<XY>)
        requires
            is_side(self@) ==> side@.len() > 0,
        ensures
            part@ == part_with_side(self@, side@),
    {
        match self {
            TemplateStringPart::Literal(text) => TemplateStringPart::Literal(share(text)),
            TemplateStringPart::Variable { padding, variable } => {
                match variable {
                    TemplateVariable::X => TemplateStringPart::Variable {
                        padding: *padding,
                        variable: XY::X,
                    },
                    TemplateVariable::Y => TemplateStringPart::Variable {
                        padding: *padding,
                        variable: XY::Y,
                    },
                    TemplateVariable::Side => {
                        let letter = side.substring_char(0, 1).to_owned();
                        TemplateStringPart::Literal(Arc::new(letter))
                    },
                }
            },
        }
    }
}

impl TemplateString<TemplateVariable> {
    /// Whether the template holds the side variable.
    fn holds_side(&self) -> (found: bool)
        ensures
            found == has_side(self@),
    {
        let mut i: usize = 0;
        while i < self.0.len()
            invariant
                i <= self.0.len(),
                forall|j: int| 0 <= j < i ==> !is_side(#[trigger] self@[j]),
            decreases self.0.len() - i,
        {
            if let TemplateStringPart::Variable { variable: TemplateVariable::Side, .. } =
                &self.0[i] {
                assert(is_side(self@[i as int]));
                return true;
            }
            i = i + 1;
        }
        false
    }

    /// The template for the side named `side`.
    fn for_side(&self, side: &'static str) -> (template: TemplateString<XY>)
        requires
            has_side(self@) ==> side@.len() > 0,
        ensures
            template@ == with_side(self@, side@),
    {
        let mut parts: Vec<TemplateStringPart<XY>> = Vec::new();
        let mut i: usize = 0;
        while i < self.0.len()
            invariant
                i <= self.0.len(),
                has_side(self@) ==> side@.len() > 0,
                parts@.len() == i,
                (TemplateString(parts))@ == with_side(self@, side@).take(i as int),
            decreases self.0.len() - i,
        {
            let ghost before = (TemplateString(parts))@;
            proof {
                if is_side(self.0[i as int]@) {
                    assert(is_side(self@[i as int]));
                }
            }
            parts.push(self.0[i].with_side(side));
            proof {
                let now = (TemplateString(parts))@;
                let all = with_side(self@, side@);
                assert(all[i as int] == part_with_side(self@[i as int], side@));
                assert(now[i as int] == all[i as int]);
                assert forall|j: int| 0 <= j < i implies now[j] == all[j] by {
                    assert(now[j] == before[j]);
                }
                assert(now =~= all.take(i as int + 1));
            }
            i = i + 1;
        }
        proof {
            assert((TemplateString(parts))@ =~= with_side(self@, side@));
        }
        TemplateString(parts)
    }

    /// Expands the template into one template for each side.
    ///
    /// A template that holds the side variable gives six templates, for the
    /// sides `forward`, `back`, `left`, `right`, `up` and `down` in this
    /// order, each with the side variable replaced by the first letter of
    /// the name. Any other template gives one template, under an empty name.
    /// Each comes with the name of its side.
    pub fn all_sides(self) -> (sides: Vec<(&'static str, TemplateString<XY>)>)
        ensures
            sides@.len() == sides_of(self@).len(),
            sides@.len() == (if has_side(self@) { 6nat } else { 1nat }),
            forall|i: int|
                0 <= i < sides@.len() ==> {
                    &&& (#[trigger] sides@[i]).0@ == sides_of(self@)[i]
                    &&& sides@[i].1@ == with_side(self@, sides_of(self@)[i])
                },
    {
        let mut sides: Vec<(&'static str, TemplateString<XY>)> = Vec::new();
        if self.holds_side() {
            let mut k: usize = 0;
            while k < 6
                invariant
                    k <= 6,
                    has_side(self@),
                    sides@.len() == k,
                    forall|i: int|
                        0 <= i < k ==> {
                            &&& (#[trigger] sides@[i]).0@ == side_names()[i]
                            &&& sides@[i].1@ == with_side(self@, side_names()[i])
                        },
                decreases 6 - k,
            {
                let name = side_name(k);
                let template = self.for_side(name);
                sides.push((name, template));
                k = k + 1;
            }
        } else {
            proof {
                reveal_strlit("");
                assert(""@ =~= Seq::<char>::empty());
            }
            let template = self.for_side("");
            sides.push(("", template));
        }
        sides
    }
}

} // verus!

//! Parsed templates: the token tree and what it looks like to the renderer.

use crate::formats::FormatTable;
use vstd::prelude::*;

verus! {

/// A dotted path. The empty path stands for the innermost value itself.
#[derive(Debug, Clone, PartialEq, Eq)]
pub struct Name(pub Vec<String>);

/// A part of the template that is rendered depending on a value.
#[derive(Debug, PartialEq, Eq)]
pub struct Section {
    pub name: Name,
    pub inverted: bool,
    pub content: Vec<Token>,
}

/// The insertion of a value, with the format string written at that place,
/// if any.
#[derive(Debug, Clone, PartialEq, Eq)]
pub struct Insert {
    pub name: Name,
    pub format: Option<String>,
}

/// The registration of a format string for a type, from that place on.
#[derive(Debug, Clone, PartialEq, Eq)]
pub struct SetFmt {
    pub typename: String,
    pub format: String,
}

/// One node of a parsed template.
#[derive(Debug, PartialEq, Eq)]
pub enum Token {
    String(String),
    Insert(Insert),
    Section(Section),
    SetFmt(SetFmt),
}

/// The mathematical content of a [`Token`].
pub enum TokenView {
    Text(Seq<char>),
    Insert { name: Seq<Seq<char>>, format: Option<Seq<char>> },
    Section { name: Seq<Seq<char>>, inverted: bool, content: Seq<TokenView> },
    SetFmt { typename: Seq<char>, format: Seq<char> },
}

impl View for Name {
    type V = Seq<Seq<char>>;

    open spec fn view(&self) -> Seq<Seq<char>> {
        Seq::new(self.0@.len(), |i: int| self.0@[i]@)
    }
}

/// The mathematical content of `token`.
pub open spec fn token_view(token: &Token) -> TokenView
    decreases token,
{
    match token {
        Token::String(s) => TokenView::Text(s@),
        Token::Insert(insert) => TokenView::Insert {
            name: insert.name@,
            format: match insert.format {
                Some(f) => Some(f@),
                None => None,
            },
        },
        Token::Section(section) => TokenView::Section {
            name: section.name@,
            inverted: section.inverted,
            content: Seq::new(
                section.content@.len(),
                |i: int|
                    if 0 <= i < section.content@.len() {
                        token_view(&section.content@[i])
                    } else {
                        TokenView::Text(Seq::empty())
                    },
            ),
        },
        Token::SetFmt(set) => TokenView::SetFmt { typename: set.typename@, format: set.format@ },
    }
}

impl View for Token {
    type V = TokenView;

    open spec fn view(&self) -> TokenView {
        token_view(self)
    }
}

/// The mathematical content of a list of tokens.
pub open spec fn tokens_view(tokens: Seq<Token>) -> Seq<TokenView> {
    Seq::new(tokens.len(), |i: int| token_view(&tokens[i]))
}

/// The view of a section holds the views of its tokens.
pub proof fn lemma_section_view(section: Section)
    ensures
        Token::Section(section)@ == (TokenView::Section {
            name: section.name@,
            inverted: section.inverted,
            content: tokens_view(section.content@),
        }),
{
    assert(Token::Section(section)@->Section_content =~= tokens_view(section.content@));
}

/// The text of a path: `.` for the empty path, else its segments with a dot
/// between them.
pub open spec fn name_text(name: Seq<Seq<char>>) -> Seq<char>
    decreases name.len(),
{
    if name.len() == 0 {
        seq!['.']
    } else if name.len() == 1 {
        name[0]
    } else {
        name_text(name.drop_last()) + seq!['.'] + name.last()
    }
}

impl Name {
    /// The text of the path, as it is written in a template.
    pub fn to_string(&self) -> (s: String)
        ensures
            s@ == name_text(self@),
    {
        let mut s = String::new();
        if self.0.len() == 0 {
            s.push('.');
            assert(s@ =~= seq!['.']);
            return s;
        }
        s.append(self.0[0].as_str());
        assert(self@.subrange(0, 1) =~= seq![self@[0]]);
        assert(s@ =~= name_text(self@.subrange(0, 1)));
        let mut i: usize = 1;
        while i < self.0.len()
            invariant
                1 <= i <= self.0@.len(),
                self@.len() == self.0@.len(),
                s@ == name_text(self@.subrange(0, i as int)),
            decreases self.0.len() - i,
        {
            s.push('.');
            s.append(self.0[i].as_str());
            i += 1;
            proof {
                let upto = self@.subrange(0, i as int);
                assert(upto.drop_last() =~= self@.subrange(0, i - 1));
                assert(upto.last() == self.0@[i - 1]@);
                assert(s@ =~= name_text(upto));
            }
        }
        assert(self@.subrange(0, i as int) =~= self@);
        s
    }

    /// Whether the two paths have the same segments.
    pub fn same_as(&self, other: &Name) -> (same: bool)
        ensures
            same == (self@ == other@),
    {
        assert(self@.len() == self.0@.len() && other@.len() == other.0@.len());
        if self.0.len() != other.0.len() {
            return false;
        }
        let mut i: usize = 0;
        while i < self.0.len()
            invariant
                i <= self.0@.len(),
                self.0@.len() == other.0@.len(),
                forall|j: int| 0 <= j < i ==> self@[j] == other@[j],
            decreases self.0.len() - i,
        {
            if self.0[i] != other.0[i] {
                assert(self@[i as int] != other@[i as int]);
                return false;
            }
            i += 1;
        }
        assert(self@ =~= other@);
        true
    }
}

/// A parsed template, with the format overrides registered so far.
#[derive(Debug, PartialEq, Eq)]
pub struct Template {
    pub(crate) fmt: FormatTable,
    pub(crate) tokens: Vec<Token>,
}

} // verus!

//! The grammar of an annotation's arguments: a list of items with a comma
//! between any two and, if one likes, after the last. An item is `since`, `=`
//! and a string literal, or `until`, `=` and a string literal, or nothing.

use vstd::prelude::*;
use crate::meta::{metas_view, Error, MetaView, VersionMeta};
use crate::token::{tokens_view, Literal, LiteralView, Place, Token, TokenView};

verus! {

/// The string literal at `at`, where one stands there.
pub open spec fn literal_at(tokens: Seq<TokenView>, attr: usize, at: int) -> Option<LiteralView> {
    if 0 <= at < tokens.len() {
        match tokens[at] {
            TokenView::Str(s) => Some(LiteralView { text: s, place: Place { attr, token: at as usize } }),
            _ => None,
        }
    } else {
        None
    }
}

/// What follows a keyword at `pos`: `=` and a string literal, which is the
/// result, together with the position behind it. Anything else is refused at
/// the first token that does not fit.
pub open spec fn value_at(tokens: Seq<TokenView>, attr: usize, pos: int) -> Result<(LiteralView, int), Error> {
    if !(pos + 1 < tokens.len() && tokens[pos + 1].is_punct('=')) {
        Err(Error::Syntax { at: Place { attr, token: (pos + 1) as usize } })
    } else {
        match literal_at(tokens, attr, pos + 2) {
            Some(l) => Ok((l, pos + 3)),
            None => Err(Error::Syntax { at: Place { attr, token: (pos + 2) as usize } }),
        }
    }
}

/// The item that starts at `pos`, and the position behind it. Where no
/// keyword stands at `pos` the item is empty and ends where it starts.
pub open spec fn item_at(tokens: Seq<TokenView>, attr: usize, pos: int) -> Result<(MetaView, int), Error> {
    if 0 <= pos < tokens.len() && tokens[pos].is_word("since"@) {
        match value_at(tokens, attr, pos) {
            Ok((l, next)) => Ok((MetaView { since: Some(l), until: None }, next)),
            Err(e) => Err(e),
        }
    } else if 0 <= pos < tokens.len() && tokens[pos].is_word("until"@) {
        match value_at(tokens, attr, pos) {
            Ok((l, next)) => Ok((MetaView { since: None, until: Some(l) }, next)),
            Err(e) => Err(e),
        }
    } else {
        Ok((MetaView::empty(), pos))
    }
}

/// The items of `tokens[pos..]`, behind those of `done`. The list ends where
/// the tokens end, before an item or behind one; between two items stands a
/// comma.
pub open spec fn items_from(tokens: Seq<TokenView>, attr: usize, pos: int, done: Seq<MetaView>) -> Result<Seq<MetaView>, Error>
    decreases tokens.len() - pos,
{
    if pos < 0 || pos >= tokens.len() {
        Ok(done)
    } else {
        match item_at(tokens, attr, pos) {
            Err(e) => Err(e),
            Ok((m, next)) => {
                if next >= tokens.len() {
                    Ok(done.push(m))
                } else if !tokens[next].is_punct(',') {
                    Err(Error::Syntax { at: Place { attr, token: next as usize } })
                } else {
                    items_from(tokens, attr, next + 1, done.push(m))
                }
            },
        }
    }
}

/// The items of an annotation's arguments.
pub open spec fn items(tokens: Seq<TokenView>, attr: usize) -> Result<Seq<MetaView>, Error> {
    items_from(tokens, attr, 0, Seq::empty())
}

fn value(tokens: &Vec<Token>, attr: usize, pos: usize) -> (r: Result<(Literal, usize), Error>)
    requires
        pos < tokens.len(),
    ensures
        match r {
            Ok((l, next)) => value_at(tokens_view(tokens@), attr, pos as int) == Ok::<(LiteralView, int), Error>(
                (l@, next as int),
            ),
            Err(e) => value_at(tokens_view(tokens@), attr, pos as int) == Err::<(LiteralView, int), Error>(e),
        },
{
    if !(pos + 1 < tokens.len() && tokens[pos + 1].has_punct('=')) {
        return Err(Error::Syntax { at: Place { attr, token: pos + 1 } });
    }
    if pos + 2 < tokens.len() {
        match &tokens[pos + 2] {
            Token::Str(s) => {
                let l = Literal { text: s.clone(), place: Place { attr, token: pos + 2 } };
                return Ok((l, pos + 3));
            },
            _ => {},
        }
    }
    Err(Error::Syntax { at: Place { attr, token: pos + 2 } })
}

impl VersionMeta {
    /// Reads one item of the arguments of the annotation `attr`, at `pos`:
    /// the bound that it declares, if any, and where the item ends. The item
    /// is refused where a keyword is not followed by `=` and a string literal.
    pub fn parse(tokens: &Vec<Token>, attr: usize, pos: usize) -> (r: Result<(VersionMeta, usize), Error>)
        requires
            pos <= tokens.len(),
        ensures
            match r {
                Ok((m, next)) => item_at(tokens_view(tokens@), attr, pos as int) == Ok::<(MetaView, int), Error>(
                    (m@, next as int),
                ),
                Err(e) => item_at(tokens_view(tokens@), attr, pos as int) == Err::<(MetaView, int), Error>(e),
            },
            r matches Ok((_, next)) ==> pos <= next <= tokens.len(),
    {
        if pos < tokens.len() && tokens[pos].has_word("since") {
            match value(tokens, attr, pos) {
                Ok((l, next)) => Ok((VersionMeta { since: Some(l), until: None }, next)),
                Err(e) => Err(e),
            }
        } else if pos < tokens.len() && tokens[pos].has_word("until") {
            match value(tokens, attr, pos) {
                Ok((l, next)) => Ok((VersionMeta { since: None, until: Some(l) }, next)),
                Err(e) => Err(e),
            }
        } else {
            Ok((VersionMeta::new(), pos))
        }
    }

    /// Reads the whole of an annotation's arguments: its items in their
    /// order, or the place of the first token that the grammar does not
    /// allow.
    pub fn parse_list(tokens: &Vec<Token>, attr: usize) -> (r: Result<Vec<VersionMeta>, Error>)
        ensures
            match r {
                Ok(list) => items(tokens_view(tokens@), attr) == Ok::<Seq<MetaView>, Error>(metas_view(list@)),
                Err(e) => items(tokens_view(tokens@), attr) == Err::<Seq<MetaView>, Error>(e),
            },
    {
        let mut list: Vec<VersionMeta> = Vec::new();
        let mut pos: usize = 0;
        assert(metas_view(list@) =~= Seq::empty());
        while pos < tokens.len()
            invariant
                pos <= tokens.len(),
                items_from(tokens_view(tokens@), attr, pos as int, metas_view(list@)) == items(
                    tokens_view(tokens@),
                    attr,
                ),
            decreases tokens.len() - pos,
        {
            let (m, next) = match VersionMeta::parse(tokens, attr, pos) {
                Ok(step) => step,
                Err(e) => { return Err(e); },
            };
            let ghost before = metas_view(list@);
            list.push(m);
            assert(metas_view(list@) =~= before.push(m@));
            if next >= tokens.len() {
                return Ok(list);
            }
            if !tokens[next].has_punct(',') {
                return Err(Error::Syntax { at: Place { attr, token: next } });
            }
            pos = next + 1;
        }
        Ok(list)
    }
}

} // verus!

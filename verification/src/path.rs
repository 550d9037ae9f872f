//! Outline pen recording.
//!
//! Draw primitives are recorded as [`PathCommand`] values; a recorded
//! sequence renders as a textual path descriptor with one single-letter
//! command token per primitive and space-separated fixed-point operands.
//! Each appended token carries a trailing separator; [`Builder::finish`]
//! trims the single trailing separator.

use vstd::prelude::*;
use vstd::string::StringExecFns;
use crate::num::scalar_digits;
use crate::num::scalar_to_dec;
use crate::transform::{Transform, apply_spec, t_wf};

verus! {

/// One recorded draw primitive, with fixed-point coordinates.
#[derive(Clone, Copy, PartialEq, Eq, Structural, Debug)]
pub enum PathCommand {
    MoveTo(i64, i64),
    LineTo(i64, i64),
    QuadTo(i64, i64, i64, i64),
    CurveTo(i64, i64, i64, i64, i64, i64),
    Close,
}

/// The textual token a primitive appends, trailing separator included.
pub open spec fn command_token(c: PathCommand) -> Seq<char> {
    match c {
        PathCommand::MoveTo(x, y) => "M "@ + scalar_digits(x as int) + " "@ + scalar_digits(
            y as int,
        ) + " "@,
        PathCommand::LineTo(x, y) => "L "@ + scalar_digits(x as int) + " "@ + scalar_digits(
            y as int,
        ) + " "@,
        PathCommand::QuadTo(cx, cy, x, y) => "Q "@ + scalar_digits(cx as int) + " "@
            + scalar_digits(cy as int) + " "@ + scalar_digits(x as int) + " "@ + scalar_digits(
            y as int,
        ) + " "@,
        PathCommand::CurveTo(cx0, cy0, cx1, cy1, x, y) => "C "@ + scalar_digits(cx0 as int) + " "@
            + scalar_digits(cy0 as int) + " "@ + scalar_digits(cx1 as int) + " "@ + scalar_digits(
            cy1 as int,
        ) + " "@ + scalar_digits(x as int) + " "@ + scalar_digits(y as int) + " "@,
        PathCommand::Close => "Z "@,
    }
}

/// The raw recorded text of a command sequence.
pub open spec fn path_text(cs: Seq<PathCommand>) -> Seq<char>
    decreases cs.len(),
{
    if cs.len() == 0 {
        Seq::empty()
    } else {
        command_token(cs.first()) + path_text(cs.drop_first())
    }
}

/// The recorded text with the single trailing separator trimmed.
pub open spec fn finished_path_text(cs: Seq<PathCommand>) -> Seq<char> {
    let t = path_text(cs);
    if t.len() > 0 {
        t.drop_last()
    } else {
        t
    }
}

/// Renders one primitive's token, trailing separator included.
pub fn command_token_value(c: &PathCommand) -> (r: String)
    ensures
        r@ == command_token(*c),
{
    let mut s = String::new();
    match c {
        PathCommand::MoveTo(x, y) => {
            s.append("M ");
            s.append(scalar_to_dec(*x).as_str());
            s.append(" ");
            s.append(scalar_to_dec(*y).as_str());
            s.append(" ");
        },
        PathCommand::LineTo(x, y) => {
            s.append("L ");
            s.append(scalar_to_dec(*x).as_str());
            s.append(" ");
            s.append(scalar_to_dec(*y).as_str());
            s.append(" ");
        },
        PathCommand::QuadTo(cx, cy, x, y) => {
            s.append("Q ");
            s.append(scalar_to_dec(*cx).as_str());
            s.append(" ");
            s.append(scalar_to_dec(*cy).as_str());
            s.append(" ");
            s.append(scalar_to_dec(*x).as_str());
            s.append(" ");
            s.append(scalar_to_dec(*y).as_str());
            s.append(" ");
        },
        PathCommand::CurveTo(cx0, cy0, cx1, cy1, x, y) => {
            s.append("C ");
            s.append(scalar_to_dec(*cx0).as_str());
            s.append(" ");
            s.append(scalar_to_dec(*cy0).as_str());
            s.append(" ");
            s.append(scalar_to_dec(*cx1).as_str());
            s.append(" ");
            s.append(scalar_to_dec(*cy1).as_str());
            s.append(" ");
            s.append(scalar_to_dec(*x).as_str());
            s.append(" ");
            s.append(scalar_to_dec(*y).as_str());
            s.append(" ");
        },
        PathCommand::Close => {
            s.append("Z ");
        },
    }
    proof {
        assert(s@ =~= command_token(*c));
    }
    s
}

/// The raw text of a prefix extends by the next token.
pub proof fn lemma_path_text_take(cs: Seq<PathCommand>, i: int)
    requires
        0 <= i < cs.len(),
    ensures
        path_text(cs.take(i + 1)) == path_text(cs.take(i)) + command_token(cs[i]),
    decreases i,
{
    if i == 0 {
        assert(cs.take(1).drop_first() =~= cs.take(0));
        assert(path_text(cs.take(1)) =~= command_token(cs[0]) + path_text(cs.take(0)));
        assert(path_text(cs.take(0)) =~= Seq::<char>::empty());
        assert(path_text(cs.take(1)) =~= path_text(cs.take(0)) + command_token(cs[0]));
    } else {
        let tail = cs.drop_first();
        assert(cs.take(i + 1).first() == cs[0]);
        assert(cs.take(i + 1).drop_first() =~= tail.take(i));
        assert(cs.take(i).first() == cs[0]);
        assert(cs.take(i).drop_first() =~= tail.take(i - 1));
        lemma_path_text_take(tail, i - 1);
        assert(tail[i - 1] == cs[i]);
        assert(path_text(cs.take(i + 1)) =~= path_text(cs.take(i)) + command_token(cs[i]));
    }
}

/// Renders the raw text of a recorded command sequence.
pub fn render_path_text(cs: &Vec<PathCommand>) -> (r: String)
    ensures
        r@ == path_text(cs@),
{
    let mut s = String::new();
    let mut i: usize = 0;
    while i < cs.len()
        invariant
            0 <= i <= cs.len(),
            s@ == path_text(cs@.take(i as int)),
        decreases cs.len() - i,
    {
        let tok = command_token_value(&cs[i]);
        s.append(tok.as_str());
        proof {
            lemma_path_text_take(cs@, i as int);
        }
        i = i + 1;
    }
    proof {
        assert(cs@.take(cs@.len() as int) =~= cs@);
    }
    s
}

/// Relies on `String::pop`: removes and returns the last character, or
/// returns `None` on an empty string.
#[verifier::external_body]
fn string_pop(s: &mut String) -> (r: Option<char>)
    ensures
        final(s)@ == if old(s)@.len() > 0 {
            old(s)@.drop_last()
        } else {
            old(s)@
        },
        r == if old(s)@.len() > 0 {
            Some(old(s)@.last())
        } else {
            None::<char>
        },
{
    s.pop()
}

/// An outline pen recording draw primitives into a textual path buffer.
pub struct Builder {
    pub buf: String,
}

impl Builder {
    /// A recorder with an empty buffer.
    pub fn new() -> (r: Builder)
        ensures
            r.buf@ == Seq::<char>::empty(),
    {
        Builder { buf: String::new() }
    }

    /// Records a move-to.
    pub fn move_to(&mut self, x: i64, y: i64)
        ensures
            final(self).buf@ == old(self).buf@ + command_token(PathCommand::MoveTo(x, y)),
    {
        let tok = command_token_value(&PathCommand::MoveTo(x, y));
        self.buf.append(tok.as_str());
    }

    /// Records a line-to.
    pub fn line_to(&mut self, x: i64, y: i64)
        ensures
            final(self).buf@ == old(self).buf@ + command_token(PathCommand::LineTo(x, y)),
    {
        let tok = command_token_value(&PathCommand::LineTo(x, y));
        self.buf.append(tok.as_str());
    }

    /// Records a quadratic curve.
    pub fn quad_to(&mut self, cx: i64, cy: i64, x: i64, y: i64)
        ensures
            final(self).buf@ == old(self).buf@ + command_token(PathCommand::QuadTo(cx, cy, x, y)),
    {
        let tok = command_token_value(&PathCommand::QuadTo(cx, cy, x, y));
        self.buf.append(tok.as_str());
    }

    /// Records a cubic curve.
    pub fn curve_to(&mut self, cx0: i64, cy0: i64, cx1: i64, cy1: i64, x: i64, y: i64)
        ensures
            final(self).buf@ == old(self).buf@ + command_token(
                PathCommand::CurveTo(cx0, cy0, cx1, cy1, x, y),
            ),
    {
        let tok = command_token_value(&PathCommand::CurveTo(cx0, cy0, cx1, cy1, x, y));
        self.buf.append(tok.as_str());
    }

    /// Records a close.
    pub fn close(&mut self)
        ensures
            final(self).buf@ == old(self).buf@ + command_token(PathCommand::Close),
    {
        let tok = command_token_value(&PathCommand::Close);
        self.buf.append(tok.as_str());
    }

    /// Ends recording: trims the single trailing separator, if any.
    pub fn finish(&mut self)
        ensures
            final(self).buf@ == if old(self).buf@.len() > 0 {
                old(self).buf@.drop_last()
            } else {
                old(self).buf@
            },
    {
        let _ = string_pop(&mut self.buf);
    }
}

/// One primitive with every point mapped through `t`.
pub open spec fn transform_command(t: Transform, c: PathCommand) -> PathCommand {
    match c {
        PathCommand::MoveTo(x, y) => {
            let p = apply_spec(t, x as int, y as int);
            PathCommand::MoveTo(p.0 as i64, p.1 as i64)
        },
        PathCommand::LineTo(x, y) => {
            let p = apply_spec(t, x as int, y as int);
            PathCommand::LineTo(p.0 as i64, p.1 as i64)
        },
        PathCommand::QuadTo(cx, cy, x, y) => {
            let pc = apply_spec(t, cx as int, cy as int);
            let p = apply_spec(t, x as int, y as int);
            PathCommand::QuadTo(pc.0 as i64, pc.1 as i64, p.0 as i64, p.1 as i64)
        },
        PathCommand::CurveTo(cx0, cy0, cx1, cy1, x, y) => {
            let pc0 = apply_spec(t, cx0 as int, cy0 as int);
            let pc1 = apply_spec(t, cx1 as int, cy1 as int);
            let p = apply_spec(t, x as int, y as int);
            PathCommand::CurveTo(
                pc0.0 as i64,
                pc0.1 as i64,
                pc1.0 as i64,
                pc1.1 as i64,
                p.0 as i64,
                p.1 as i64,
            )
        },
        PathCommand::Close => PathCommand::Close,
    }
}

/// Maps every point of every primitive through `t`.
pub fn transform_commands(t: &Transform, cs: &Vec<PathCommand>) -> (r: Vec<PathCommand>)
    requires
        t_wf(*t),
    ensures
        r@ == cs@.map_values(|c: PathCommand| transform_command(*t, c)),
{
    let mut r: Vec<PathCommand> = Vec::new();
    let mut i: usize = 0;
    while i < cs.len()
        invariant
            0 <= i <= cs.len(),
            t_wf(*t),
            r@ == cs@.take(i as int).map_values(|c: PathCommand| transform_command(*t, c)),
        decreases cs.len() - i,
    {
        let c = cs[i];
        let tc = match c {
            PathCommand::MoveTo(x, y) => {
                let p = t.apply(x, y);
                PathCommand::MoveTo(p.0, p.1)
            },
            PathCommand::LineTo(x, y) => {
                let p = t.apply(x, y);
                PathCommand::LineTo(p.0, p.1)
            },
            PathCommand::QuadTo(cx, cy, x, y) => {
                let pc = t.apply(cx, cy);
                let p = t.apply(x, y);
                PathCommand::QuadTo(pc.0, pc.1, p.0, p.1)
            },
            PathCommand::CurveTo(cx0, cy0, cx1, cy1, x, y) => {
                let pc0 = t.apply(cx0, cy0);
                let pc1 = t.apply(cx1, cy1);
                let p = t.apply(x, y);
                PathCommand::CurveTo(pc0.0, pc0.1, pc1.0, pc1.1, p.0, p.1)
            },
            PathCommand::Close => PathCommand::Close,
        };
        r.push(tc);
        proof {
            assert(r@ =~= cs@.take(i + 1).map_values(
                |c: PathCommand| transform_command(*t, c),
            ));
        }
        i = i + 1;
    }
    proof {
        assert(cs@.take(cs@.len() as int) =~= cs@);
    }
    r
}

} // verus!

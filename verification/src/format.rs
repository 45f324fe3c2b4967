use crate::text::push_char;
use vstd::prelude::*;

verus! {

/// The state of a formatter, as the text written so far, the indentation
/// level, the indentation width and the last character written.
pub type FmtState = (Seq<char>, int, int, char);

/// A piece of printed output: a change of the indentation level, then text.
pub type Piece = (int, Seq<char>);

/// `n` spaces.
pub open spec fn spaces(n: int) -> Seq<char> {
    Seq::new(n as nat, |i: int| ' ')
}

/// Writes the character `c`. A character other than a line break that starts
/// a line is preceded by `level * width` spaces.
pub open spec fn put_char(st: FmtState, c: char) -> FmtState {
    (
        st.0 + (if c != '\n' && st.3 == '\n' {
            spaces(st.1 * st.2)
        } else {
            Seq::<char>::empty()
        }) + seq![c],
        st.1,
        st.2,
        c,
    )
}

/// Writes the characters of `s`, one after the other.
pub open spec fn put(st: FmtState, s: Seq<char>) -> FmtState
    decreases s.len(),
{
    if s.len() == 0 {
        st
    } else {
        put_char(put(st, s.drop_last()), s.last())
    }
}

/// What a piece does to a formatter.
pub open spec fn apply(st: FmtState, p: Piece) -> FmtState {
    put((st.0, st.1 + p.0, st.2, st.3), p.1)
}

/// The state after the pieces `ps`, one after the other.
pub open spec fn run(st: FmtState, ps: Seq<Piece>) -> FmtState
    decreases ps.len(),
{
    if ps.len() == 0 {
        st
    } else {
        apply(run(st, ps.drop_last()), ps.last())
    }
}

/// The piece that writes `s`.
pub open spec fn txt(s: Seq<char>) -> Seq<Piece> {
    seq![(0int, s)]
}

/// The piece that opens a level of indentation.
pub open spec fn up() -> Seq<Piece> {
    seq![(1int, Seq::<char>::empty())]
}

/// The piece that closes a level of indentation.
pub open spec fn down() -> Seq<Piece> {
    seq![(-1int, Seq::<char>::empty())]
}

/// The indentation level stays within the range of `usize` all along the
/// pieces `ps`.
pub open spec fn fits(st: FmtState, ps: Seq<Piece>) -> bool
    decreases ps.len(),
{
    if ps.len() == 0 {
        0 <= st.1 <= usize::MAX
    } else {
        fits(st, ps.drop_last()) && 0 <= run(st, ps).1 <= usize::MAX
    }
}

/// Writing text changes neither the level nor the width.
pub proof fn lemma_put_keeps_level(st: FmtState, s: Seq<char>)
    ensures
        put(st, s).1 == st.1,
        put(st, s).2 == st.2,
    decreases s.len(),
{
    if s.len() > 0 {
        lemma_put_keeps_level(st, s.drop_last());
    }
}

/// Running two runs of pieces one after the other is running them joined.
pub proof fn lemma_run_append(st: FmtState, a: Seq<Piece>, b: Seq<Piece>)
    ensures
        run(st, a + b) == run(run(st, a), b),
        fits(st, a + b) == (fits(st, a) && fits(run(st, a), b)),
    decreases b.len(),
{
    if b.len() == 0 {
        assert(a + b =~= a);
        lemma_fits_bounds(st, a);
    } else {
        lemma_run_append(st, a, b.drop_last());
        assert((a + b).drop_last() =~= a + b.drop_last());
        assert((a + b).last() == b.last());
    }
}

/// Where the level fits all along, it fits at the start and at the end.
pub proof fn lemma_fits_bounds(st: FmtState, ps: Seq<Piece>)
    ensures
        fits(st, ps) ==> 0 <= st.1 <= usize::MAX && 0 <= run(st, ps).1 <= usize::MAX,
    decreases ps.len(),
{
    if ps.len() > 0 {
        lemma_fits_bounds(st, ps.drop_last());
    }
}

/// The effect of one piece of text, of opening and of closing a level.
pub proof fn lemma_run_single(st: FmtState, s: Seq<char>)
    ensures
        run(st, txt(s)) == put(st, s),
        run(st, txt(s)).1 == st.1,
        run(st, txt(s)).2 == st.2,
        fits(st, txt(s)) == (0 <= st.1 <= usize::MAX),
        run(st, up()) == (st.0, st.1 + 1, st.2, st.3),
        fits(st, up()) == (0 <= st.1 && st.1 + 1 <= usize::MAX),
        run(st, down()) == (st.0, st.1 - 1, st.2, st.3),
        fits(st, down()) == (1 <= st.1 <= usize::MAX),
{
    assert(txt(s).drop_last() =~= Seq::<Piece>::empty());
    assert(up().drop_last() =~= Seq::<Piece>::empty());
    assert(down().drop_last() =~= Seq::<Piece>::empty());
    assert((st.0, st.1 + 0, st.2, st.3) == st);
    assert(txt(s).last() == (0int, s));
    assert(run(st, Seq::<Piece>::empty()) == st);
    assert(run(st, txt(s)) == apply(st, (0int, s)));
    assert(fits(st, Seq::<Piece>::empty()) == (0 <= st.1 <= usize::MAX));
    lemma_put_keeps_level(st, s);
}

/// How far the pieces `ps` move the indentation level, all told.
pub open spec fn level_change(ps: Seq<Piece>) -> int
    decreases ps.len(),
{
    if ps.len() == 0 {
        0
    } else {
        level_change(ps.drop_last()) + ps.last().0
    }
}

/// The level after the pieces `ps` is the level before, moved by
/// `level_change(ps)`; the width does not change.
pub proof fn lemma_run_level(st: FmtState, ps: Seq<Piece>)
    ensures
        run(st, ps).1 == st.1 + level_change(ps),
        run(st, ps).2 == st.2,
    decreases ps.len(),
{
    if ps.len() > 0 {
        lemma_run_level(st, ps.drop_last());
        let mid = run(st, ps.drop_last());
        lemma_put_keeps_level((mid.0, mid.1 + ps.last().0, mid.2, mid.3), ps.last().1);
    }
}

/// The level change of joined pieces is the sum of theirs.
pub proof fn lemma_level_change_append(a: Seq<Piece>, b: Seq<Piece>)
    ensures
        level_change(a + b) == level_change(a) + level_change(b),
    decreases b.len(),
{
    if b.len() == 0 {
        assert(a + b =~= a);
    } else {
        lemma_level_change_append(a, b.drop_last());
        assert((a + b).drop_last() =~= a + b.drop_last());
    }
}

/// Text does not move the level; opening and closing a level move it by one
/// each way.
pub proof fn lemma_level_change_single(s: Seq<char>)
    ensures
        level_change(txt(s)) == 0,
        level_change(up()) == 1,
        level_change(down()) == -1,
{
    assert(txt(s).drop_last() =~= Seq::<Piece>::empty());
    assert(up().drop_last() =~= Seq::<Piece>::empty());
    assert(down().drop_last() =~= Seq::<Piece>::empty());
    assert(level_change(Seq::<Piece>::empty()) == 0);
    assert(txt(s).last() == (0int, s));
    assert(up().last().0 == 1);
    assert(down().last().0 == -1);
}

/// Writing characters one after another is writing them all at once.
pub proof fn lemma_put_append(st: FmtState, a: Seq<char>, b: Seq<char>)
    ensures
        put(st, a + b) == put(put(st, a), b),
    decreases b.len(),
{
    if b.len() == 0 {
        assert(a + b =~= a);
    } else {
        lemma_put_append(st, a, b.drop_last());
        assert((a + b).drop_last() =~= a + b.drop_last());
        assert((a + b).last() == b.last());
    }
}

/// Writing two strings one after the other leaves the formatter as writing
/// them joined does.
pub proof fn law_write_concat(st: FmtState, a: Seq<char>, b: Seq<char>)
    ensures
        run(st, txt(a) + txt(b)) == run(st, txt(a + b)),
{
    lemma_run_append(st, txt(a), txt(b));
    lemma_run_single(st, a);
    lemma_run_single(run(st, txt(a)), b);
    lemma_run_single(st, a + b);
    lemma_put_append(st, a, b);
}

/// Opening a level of indentation and closing it again changes nothing.
pub proof fn law_up_then_down(st: FmtState)
    ensures
        run(st, up() + down()) == st,
{
    lemma_run_append(st, up(), down());
    lemma_run_single(st, Seq::<char>::empty());
    lemma_run_single(run(st, up()), Seq::<char>::empty());
}

/// After a level of indentation is opened, a line break followed by a
/// character other than a line break writes the break, then one more level
/// of indentation than before, then the character; a second line break
/// right after the first (a blank line) is written with no indentation.
pub proof fn law_indent_after_level_up(st: FmtState, c: char)
    requires
        c != '\n',
    ensures
        run(st, up() + txt(seq!['\n', c])).0 == st.0 + seq!['\n'] + spaces((st.1 + 1) * st.2) + seq![c],
        run(st, up() + txt(seq!['\n', '\n'])).0 == st.0 + seq!['\n', '\n'],
{
    let s1 = run(st, up());
    lemma_run_append(st, up(), txt(seq!['\n', c]));
    lemma_run_append(st, up(), txt(seq!['\n', '\n']));
    lemma_run_single(st, Seq::<char>::empty());
    assert(s1 == (st.0, st.1 + 1, st.2, st.3));
    lemma_run_single(s1, seq!['\n', c]);
    lemma_run_single(s1, seq!['\n', '\n']);
    assert(seq!['\n', c].drop_last() =~= seq!['\n']);
    assert(seq!['\n'].drop_last() =~= Seq::<char>::empty());
    assert(seq!['\n', '\n'].drop_last() =~= seq!['\n']);
    let p1 = put(s1, seq!['\n']);
    assert(p1 == put_char(s1, '\n'));
    assert(p1.3 == '\n');
    assert(put(s1, seq!['\n', c]).0 =~= st.0 + seq!['\n'] + spaces((st.1 + 1) * st.2) + seq![c]);
    assert(put(s1, seq!['\n', '\n']).0 =~= st.0 + seq!['\n', '\n']);
}

/// Writes text, indenting each line by the current level.
pub struct Formatter {
    indent_level: usize,
    indent_size: usize,
    prev_char: char,
    buf: String,
}

impl Formatter {
    /// The text written so far, the indentation level, the indentation width
    /// and the last character written.
    pub closed spec fn state(&self) -> (Seq<char>, int, int, char) {
        (self.buf@, self.indent_level as int, self.indent_size as int, self.prev_char)
    }

    /// A formatter that writes after `buf`, at level zero with a width of
    /// four.
    pub fn new(buf: String) -> (r: Self)
        ensures
            r.state() == (buf@, 0int, 4int, ' '),
    {
        Formatter { indent_level: 0, indent_size: 4, prev_char: ' ', buf }
    }

    /// Sets the indentation width.
    pub fn indent_size(&mut self, indent_size: usize)
        ensures
            final(self).state() == (old(self).state().0, old(self).state().1, indent_size as int, old(self).state().3),
    {
        self.indent_size = indent_size;
    }

    /// Opens a level of indentation.
    pub fn indent_level_up(&mut self)
        requires
            old(self).state().1 < usize::MAX,
        ensures
            final(self).state() == run(old(self).state(), up()),
    {
        proof {
            lemma_run_single(self.state(), Seq::<char>::empty());
        }
        self.indent_level = self.indent_level + 1;
    }

    /// Closes a level of indentation.
    pub fn indent_level_down(&mut self)
        requires
            old(self).state().1 > 0,
        ensures
            final(self).state() == run(old(self).state(), down()),
    {
        proof {
            lemma_run_single(self.state(), Seq::<char>::empty());
        }
        self.indent_level = self.indent_level - 1;
    }

    /// Appends `n` spaces to the text.
    fn push_spaces(&mut self, n: usize)
        ensures
            final(self).buf@ == old(self).buf@ + spaces(n as int),
            final(self).indent_level == old(self).indent_level,
            final(self).indent_size == old(self).indent_size,
            final(self).prev_char == old(self).prev_char,
    {
        let mut i: usize = 0;
        while i < n
            invariant
                i <= n,
                self.buf@ == old(self).buf@ + spaces(i as int),
                self.indent_level == old(self).indent_level,
                self.indent_size == old(self).indent_size,
                self.prev_char == old(self).prev_char,
            decreases n - i,
        {
            push_char(&mut self.buf, ' ');
            assert(spaces(i as int).push(' ') =~= spaces(i + 1));
            i = i + 1;
        }
    }

    /// Writes the character `c`, indented where it starts a line.
    pub fn write_char(&mut self, c: char)
        ensures
            final(self).state() == put_char(old(self).state(), c),
    {
        if c != '\n' && self.prev_char == '\n' {
            let level = self.indent_level;
            let width = self.indent_size;
            let mut i: usize = 0;
            while i < level
                invariant
                    i <= level,
                    level == old(self).indent_level,
                    width == old(self).indent_size,
                    self.buf@ == old(self).buf@ + spaces(i * width),
                    self.indent_level == old(self).indent_level,
                    self.indent_size == old(self).indent_size,
                    self.prev_char == old(self).prev_char,
                decreases level - i,
            {
                self.push_spaces(width);
                assert((i + 1) * width == i * width + width) by (nonlinear_arith);
                assert(spaces(i * width) + spaces(width as int) =~= spaces((i + 1) * width));
                i = i + 1;
            }
        }
        self.prev_char = c;
        push_char(&mut self.buf, c);
    }

    /// Writes the characters of `s` one by one.
    pub fn write_str(&mut self, s: &str)
        ensures
            final(self).state() == run(old(self).state(), txt(s@)),
    {
        let n = s.unicode_len();
        let mut i: usize = 0;
        while i < n
            invariant
                n == s@.len(),
                i <= n,
                self.state() == put(old(self).state(), s@.take(i as int)),
            decreases n - i,
        {
            let c = s.get_char(i);
            self.write_char(c);
            assert(s@.take(i + 1).drop_last() =~= s@.take(i as int));
            i = i + 1;
        }
        assert(s@.take(n as int) =~= s@);
        proof {
            lemma_run_single(old(self).state(), s@);
        }
    }

    /// The text written.
    pub fn into_string(self) -> (r: String)
        ensures
            r@ == self.state().0,
    {
        self.buf
    }

    /// The text written so far.
    pub fn as_str(&self) -> (r: &str)
        ensures
            r@ == self.state().0,
    {
        self.buf.as_str()
    }
}

} // verus!

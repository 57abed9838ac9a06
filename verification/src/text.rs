use vstd::prelude::*;

verus! {

/// A text as a mathematical value.
pub type Text = Seq<char>;

/// `String::push` appends one character to the string.
pub assume_specification[ String::push ](s: &mut String, c: char)
    ensures
        final(s)@ == old(s)@.push(c),
;

/// The characters of `text`, in order.
pub fn chars_of(text: &str) -> (chars: Vec<char>)
    ensures
        chars@ == text@,
{
    let mut chars: Vec<char> = Vec::new();
    for c in it: text.chars()
        invariant
            chars@ == it.seq().subrange(0, it.index() as int),
            it.seq() == text@,
    {
        chars.push(c);
        assert(chars@ =~= it.seq().subrange(0, it.index() + 1));
    }
    assert(chars@ =~= text@);
    chars
}

/// The string of the characters `chars`.
pub fn string_of(chars: &Vec<char>) -> (text: String)
    ensures
        text@ == chars@,
{
    let mut text = String::new();
    let mut i: usize = 0;
    while i < chars.len()
        invariant
            i <= chars@.len(),
            text@ == chars@.subrange(0, i as int),
        decreases chars@.len() - i,
    {
        text.push(chars[i]);
        i += 1;
        assert(text@ =~= chars@.subrange(0, i as int));
    }
    assert(chars@.subrange(0, chars@.len() as int) =~= chars@);
    text
}

/// Whether `text` begins with `prefix`.
pub open spec fn starts_with(text: Text, prefix: Text) -> bool {
    text.len() >= prefix.len() && text.subrange(0, prefix.len() as int) == prefix
}

/// Whether `text` begins with `prefix`, computed.
pub fn has_prefix(text: &Vec<char>, prefix: &Vec<char>) -> (r: bool)
    ensures
        r == starts_with(text@, prefix@),
{
    if text.len() < prefix.len() {
        return false;
    }
    let mut i: usize = 0;
    while i < prefix.len()
        invariant
            i <= prefix@.len() <= text@.len(),
            forall|j: int| 0 <= j < i ==> text@[j] == prefix@[j],
        decreases prefix@.len() - i,
    {
        if text[i] != prefix[i] {
            assert(text@.subrange(0, prefix@.len() as int)[i as int] != prefix@[i as int]);
            return false;
        }
        i += 1;
    }
    assert(text@.subrange(0, prefix@.len() as int) =~= prefix@);
    true
}

/// Whether the two texts are the same.
pub fn same_text(a: &Vec<char>, b: &Vec<char>) -> (r: bool)
    ensures
        r == (a@ == b@),
{
    if a.len() != b.len() {
        return false;
    }
    let r = has_prefix(a, b);
    assert(a@.subrange(0, a@.len() as int) =~= a@);
    r
}

/// The characters of `text` from index `from` on.
pub fn tail_of(text: &Vec<char>, from: usize) -> (tail: Vec<char>)
    requires
        from <= text@.len(),
    ensures
        tail@ == text@.subrange(from as int, text@.len() as int),
{
    part_of(text, from, text.len())
}

/// The characters `from..to` of `text`.
pub fn part_of(text: &Vec<char>, from: usize, to: usize) -> (part: Vec<char>)
    requires
        from <= to <= text@.len(),
    ensures
        part@ == text@.subrange(from as int, to as int),
{
    let mut part: Vec<char> = Vec::new();
    let mut i: usize = from;
    while i < to
        invariant
            from <= i <= to <= text@.len(),
            part@ == text@.subrange(from as int, i as int),
        decreases to - i,
    {
        part.push(text[i]);
        i += 1;
        assert(part@ =~= text@.subrange(from as int, i as int));
    }
    part
}

/// Appends the characters of `more` to `text`.
pub fn append_chars(text: &mut Vec<char>, more: &Vec<char>)
    ensures
        final(text)@ == old(text)@ + more@,
{
    let ghost before = text@;
    let mut i: usize = 0;
    assert(text@ =~= before + more@.subrange(0, 0));
    while i < more.len()
        invariant
            i <= more@.len(),
            text@ == before + more@.subrange(0, i as int),
        decreases more@.len() - i,
    {
        text.push(more[i]);
        i += 1;
        assert(text@ =~= before + more@.subrange(0, i as int));
    }
    assert(more@.subrange(0, more@.len() as int) =~= more@);
}

/// The texts of `pieces`.
pub open spec fn pieces_view(pieces: Vec<Vec<char>>) -> Seq<Text> {
    Seq::new(pieces@.len(), |i: int| pieces@[i]@)
}

/// The pieces of `text` between the occurrences of `sep`: one piece more
/// than there are occurrences, so that a text without `sep`, the empty text
/// too, is one piece.
pub open spec fn split(text: Text, sep: char) -> Seq<Text>
    decreases text.len(),
{
    if text.len() == 0 {
        seq![Seq::<char>::empty()]
    } else {
        let before = split(text.drop_last(), sep);
        if text.last() == sep {
            before.push(Seq::<char>::empty())
        } else {
            before.update(before.len() - 1, before.last().push(text.last()))
        }
    }
}

/// The pieces of `text` between the occurrences of `sep`, computed.
pub fn split_chars(text: &Vec<char>, sep: char) -> (pieces: Vec<Vec<char>>)
    ensures
        pieces_view(pieces) == split(text@, sep),
{
    let mut pieces: Vec<Vec<char>> = Vec::new();
    let mut current: Vec<char> = Vec::new();
    let mut i: usize = 0;
    assert(text@.subrange(0, 0) =~= Seq::<char>::empty());
    assert(pieces_view(pieces).push(current@) =~= split(text@.subrange(0, 0), sep));
    while i < text.len()
        invariant
            i <= text@.len(),
            pieces_view(pieces).push(current@) == split(text@.subrange(0, i as int), sep),
        decreases text@.len() - i,
    {
        let ghost done = pieces_view(pieces);
        let ghost cur = current@;
        assert(text@.subrange(0, i + 1).drop_last() =~= text@.subrange(0, i as int));
        if text[i] == sep {
            pieces.push(current);
            current = Vec::new();
            assert(pieces_view(pieces) =~= done.push(cur));
        } else {
            current.push(text[i]);
            assert(done.push(current@) =~= done.push(cur).update(
                done.push(cur).len() - 1,
                done.push(cur).last().push(text@[i as int]),
            ));
        }
        i += 1;
    }
    assert(text@.subrange(0, text@.len() as int) =~= text@);
    let ghost done = pieces_view(pieces);
    pieces.push(current);
    assert(pieces_view(pieces) =~= done.push(current@));
    pieces
}

/// The texts of `pieces` put together with `sep` between them.
pub open spec fn join(pieces: Seq<Text>, sep: char) -> Text
    decreases pieces.len(),
{
    if pieces.len() == 0 {
        Seq::empty()
    } else if pieces.len() == 1 {
        pieces[0]
    } else {
        join(pieces.drop_last(), sep).push(sep) + pieces.last()
    }
}

/// The texts of `pieces` put together with `sep` between them, computed.
pub fn join_chars(pieces: &Vec<Vec<char>>, sep: char) -> (text: Vec<char>)
    ensures
        text@ == join(pieces_view(*pieces), sep),
{
    let mut text: Vec<char> = Vec::new();
    let mut i: usize = 0;
    assert(pieces_view(*pieces).subrange(0, 0) =~= Seq::<Text>::empty());
    while i < pieces.len()
        invariant
            i <= pieces@.len(),
            text@ == join(pieces_view(*pieces).subrange(0, i as int), sep),
        decreases pieces@.len() - i,
    {
        let ghost upto = pieces_view(*pieces).subrange(0, i + 1);
        assert(upto.drop_last() =~= pieces_view(*pieces).subrange(0, i as int));
        assert(upto.last() == pieces@[i as int]@);
        if i > 0 {
            text.push(sep);
        } else {
            assert(text@ + pieces@[i as int]@ =~= pieces@[i as int]@);
        }
        append_chars(&mut text, &pieces[i]);
        i += 1;
    }
    assert(pieces_view(*pieces).subrange(0, pieces@.len() as int) =~= pieces_view(*pieces));
    text
}

/// The texts of `pieces` that are not `text`, in order.
pub open spec fn pieces_without(pieces: Seq<Text>, text: Text) -> Seq<Text>
    decreases pieces.len(),
{
    if pieces.len() == 0 {
        Seq::empty()
    } else if pieces.last() == text {
        pieces_without(pieces.drop_last(), text)
    } else {
        pieces_without(pieces.drop_last(), text).push(pieces.last())
    }
}

/// The texts of `pieces` that are not `text`, computed.
pub fn drop_pieces(pieces: Vec<Vec<char>>, text: &Vec<char>) -> (kept: Vec<Vec<char>>)
    ensures
        pieces_view(kept) == pieces_without(pieces_view(pieces), text@),
{
    let mut kept: Vec<Vec<char>> = Vec::new();
    let mut i: usize = 0;
    assert(pieces_view(pieces).subrange(0, 0) =~= Seq::<Text>::empty());
    assert(pieces_view(kept) =~= Seq::<Text>::empty());
    while i < pieces.len()
        invariant
            i <= pieces@.len(),
            pieces_view(kept) == pieces_without(pieces_view(pieces).subrange(0, i as int), text@),
        decreases pieces@.len() - i,
    {
        let ghost upto = pieces_view(pieces).subrange(0, i + 1);
        let ghost before = pieces_view(kept);
        assert(upto.drop_last() =~= pieces_view(pieces).subrange(0, i as int));
        assert(upto.last() == pieces@[i as int]@);
        if !same_text(&pieces[i], text) {
            let piece = tail_of(&pieces[i], 0);
            assert(piece@ =~= pieces@[i as int]@);
            kept.push(piece);
            assert(pieces_view(kept) =~= before.push(piece@));
        }
        i += 1;
    }
    assert(pieces_view(pieces).subrange(0, pieces@.len() as int) =~= pieces_view(pieces));
    kept
}

} // verus!

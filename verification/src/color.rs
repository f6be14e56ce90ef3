use vstd::prelude::*;

verus! {

/// The rarity of an Ice non-fungible, from the most common to the rarest.
#[derive(PartialEq, Eq, Structural, Clone, Copy, Debug)]
pub enum Color {
    Green,
    Blue,
    Red,
    Orange,
    Purple,
}

/// The image of each color.
pub open spec fn color_url(c: Color) -> Seq<char> {
    match c {
        Color::Green => "https://bafybeib6euav3xgpncqjtwmpz7ebckh37gccu3bvrnvyx3376dc57v6nyi.ipfs.w3s.link/ice_green.png"@,
        Color::Blue => "https://bafybeihqaeyl2wpph27k5rkfzyhl5ddiy7an77prsznejojf2ahkxutdva.ipfs.w3s.link/ice_blue.png"@,
        Color::Red => "https://bafybeib2ljsnwbntzynbgdvk75fvkab5ok6qmqxlkvtn3o33r3gpzvwohq.ipfs.w3s.link/ice_red.png"@,
        Color::Orange => "https://bafybeie6mwtsxh4lyo72y3lp4y4qlsuk7s7szeaspks7wuklo7izll3bxu.ipfs.w3s.link/ice_orange.png"@,
        Color::Purple => "https://bafybeib5ox4fdopvdcsonov6zwlbsy772fgwj6ufk6uq27rnrqfqtma4ri.ipfs.w3s.link/ice_purple.png"@,
    }
}

/// The name of a color, in lower case.
pub open spec fn color_name(c: Color) -> Seq<char> {
    match c {
        Color::Green => "green"@,
        Color::Blue => "blue"@,
        Color::Red => "red"@,
        Color::Orange => "orange"@,
        Color::Purple => "purple"@,
    }
}

/// The file name of a color's picture: `ice_<name>.png`.
pub open spec fn image_file(c: Color) -> Seq<char> {
    "ice_"@ + color_name(c) + ".png"@
}

/// `suffix` is what `s` ends with.
pub open spec fn ends_with(s: Seq<char>, suffix: Seq<char>) -> bool {
    &&& suffix.len() <= s.len()
    &&& s.subrange(s.len() - suffix.len(), s.len() as int) == suffix
}

/// Each color's image is that color's own picture: its URL ends in
/// `ice_<name>.png` with the color's own name, so no two colors share one.
pub proof fn lemma_url_shows_its_color(c: Color)
    ensures
        ends_with(color_url(c), image_file(c)),
        "https://"@.len() <= color_url(c).len(),
        color_url(c).subrange(0, 8) == "https://"@,
{
    reveal_strlit("https://");
    reveal_strlit("ice_");
    reveal_strlit(".png");
    reveal_strlit("green");
    reveal_strlit("blue");
    reveal_strlit("red");
    reveal_strlit("orange");
    reveal_strlit("purple");
    reveal_strlit("https://bafybeib6euav3xgpncqjtwmpz7ebckh37gccu3bvrnvyx3376dc57v6nyi.ipfs.w3s.link/ice_green.png");
    reveal_strlit("https://bafybeihqaeyl2wpph27k5rkfzyhl5ddiy7an77prsznejojf2ahkxutdva.ipfs.w3s.link/ice_blue.png");
    reveal_strlit("https://bafybeib2ljsnwbntzynbgdvk75fvkab5ok6qmqxlkvtn3o33r3gpzvwohq.ipfs.w3s.link/ice_red.png");
    reveal_strlit("https://bafybeie6mwtsxh4lyo72y3lp4y4qlsuk7s7szeaspks7wuklo7izll3bxu.ipfs.w3s.link/ice_orange.png");
    reveal_strlit("https://bafybeib5ox4fdopvdcsonov6zwlbsy772fgwj6ufk6uq27rnrqfqtma4ri.ipfs.w3s.link/ice_purple.png");
    let u = color_url(c);
    let f = image_file(c);
    assert(u.subrange(u.len() - f.len(), u.len() as int) =~= f);
    assert(u.subrange(0, 8) =~= "https://"@);
}

/// Different colors have different images.
pub proof fn lemma_urls_differ(a: Color, b: Color)
    requires
        a != b,
    ensures
        color_url(a) != color_url(b),
{
    lemma_url_shows_its_color(a);
    lemma_url_shows_its_color(b);
    reveal_strlit("ice_");
    reveal_strlit(".png");
    reveal_strlit("green");
    reveal_strlit("blue");
    reveal_strlit("red");
    reveal_strlit("orange");
    reveal_strlit("purple");
    let fa = image_file(a);
    let fb = image_file(b);
    let u = color_url(a);
    let w = color_url(b);
    let ua = u.subrange(u.len() - fa.len(), u.len() as int);
    let wb = w.subrange(w.len() - fb.len(), w.len() as int);
    assert(ua[fa.len() - 5] == u[u.len() - 5]);
    assert(ua[fa.len() - 6] == u[u.len() - 6]);
    assert(wb[fb.len() - 5] == w[w.len() - 5]);
    assert(wb[fb.len() - 6] == w[w.len() - 6]);
    assert(fa[fa.len() - 5] != fb[fb.len() - 5] || fa[fa.len() - 6] != fb[fb.len() - 6]);
}

/// The position of a color in the order Green, Blue, Red, Orange, Purple.
pub open spec fn color_index(c: Color) -> int {
    match c {
        Color::Green => 0,
        Color::Blue => 1,
        Color::Red => 2,
        Color::Orange => 3,
        Color::Purple => 4,
    }
}

/// The color at a position of that order; every position past the last is Purple.
pub open spec fn color_at(i: int) -> Color {
    if i == 0 {
        Color::Green
    } else if i == 1 {
        Color::Blue
    } else if i == 2 {
        Color::Red
    } else if i == 3 {
        Color::Orange
    } else {
        Color::Purple
    }
}

/// Position and color correspond one to one.
pub proof fn lemma_color_index_roundtrip(c: Color)
    ensures
        0 <= color_index(c) < 5,
        color_at(color_index(c)) == c,
{
}

impl Color {
    /// This color's position in the order Green, Blue, Red, Orange, Purple.
    pub fn index(&self) -> (i: usize)
        ensures
            i == color_index(*self),
    {
        match self {
            Color::Green => 0,
            Color::Blue => 1,
            Color::Red => 2,
            Color::Orange => 3,
            Color::Purple => 4,
        }
    }

    /// The color at position `i`; positions past the last give Purple.
    pub fn from_index(i: usize) -> (c: Color)
        ensures
            c == color_at(i as int),
    {
        if i == 0 {
            Color::Green
        } else if i == 1 {
            Color::Blue
        } else if i == 2 {
            Color::Red
        } else if i == 3 {
            Color::Orange
        } else {
            Color::Purple
        }
    }

    /// The image URL shown for a non-fungible of this color.
    pub fn url(&self) -> (r: &'static str)
        ensures
            r@ == color_url(*self),
            ends_with(r@, image_file(*self)),
    {
        proof {
            lemma_url_shows_its_color(*self);
        }
        match self {
            Color::Green => "https://bafybeib6euav3xgpncqjtwmpz7ebckh37gccu3bvrnvyx3376dc57v6nyi.ipfs.w3s.link/ice_green.png",
            Color::Blue => "https://bafybeihqaeyl2wpph27k5rkfzyhl5ddiy7an77prsznejojf2ahkxutdva.ipfs.w3s.link/ice_blue.png",
            Color::Red => "https://bafybeib2ljsnwbntzynbgdvk75fvkab5ok6qmqxlkvtn3o33r3gpzvwohq.ipfs.w3s.link/ice_red.png",
            Color::Orange => "https://bafybeie6mwtsxh4lyo72y3lp4y4qlsuk7s7szeaspks7wuklo7izll3bxu.ipfs.w3s.link/ice_orange.png",
            Color::Purple => "https://bafybeib5ox4fdopvdcsonov6zwlbsy772fgwj6ufk6uq27rnrqfqtma4ri.ipfs.w3s.link/ice_purple.png",
        }
    }
}

} // verus!

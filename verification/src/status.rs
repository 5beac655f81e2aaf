//! The connections card: what is open, which clients paint what, what a native game shows, and who is
//! in control of a board.

use vstd::prelude::*;

use crate::bridge::{
    chroma_device_name, code_word, game_device_scope, kind_word, pairs, pairs_sorted, scope_pairs,
    word_of, Bridge, GameDeviceScope, SurfaceKind,
};
use crate::obs::ObsSnapshot;
use crate::text::{list_has, lowercase, texts, to_lowercase};

verus! {

// ── claims ──────────────────────────────────────────────────────────────────────────────────────

/// A claim on a surface, as the arbiter lists it; the topmost claim stands first.
pub struct Claim {
    pub owner: u64,
    pub label: Option<String>,
}

/// What an owner is called: its label, or "another app" where it has none or an empty one.
pub open spec fn owner_name(label: Option<String>) -> Seq<char> {
    match label {
        Some(l) => if l@.len() > 0 {
            l@
        } else {
            "another app"@
        },
        None => "another app"@,
    }
}

/// What an owner is called.
pub fn name_of_owner(label: &Option<String>) -> (r: String)
    ensures
        r@ == owner_name(*label),
{
    match label {
        Some(l) => {
            if l.as_str().is_empty() {
                "another app".to_owned()
            } else {
                l.clone()
            }
        },
        None => "another app".to_owned(),
    }
}

// ── a covered game ──────────────────────────────────────────────────────────────────────────────

/// Some surface's topmost claim is `owner`'s.
pub open spec fn tops_somewhere(tops: Seq<(u64, Option<String>)>, owner: u64) -> bool {
    exists|i: int| 0 <= i < tops.len() && (#[trigger] tops[i]).0 == owner
}

/// The first topmost claim from `from` on that is neither the game's nor the app's.
pub open spec fn first_rival(
    tops: Seq<(u64, Option<String>)>,
    game: u64,
    base: u64,
    from: nat,
) -> Option<nat>
    decreases tops.len() - from,
{
    if from >= tops.len() {
        None
    } else if tops[from as int].0 != game && tops[from as int].0 != base {
        Some(from)
    } else {
        first_rival(tops, game, base, from + 1)
    }
}

/// Whose paint covers the game: nobody's where the game is on top anywhere, else that of the first
/// rival on top; the app's own lighting is none.
pub open spec fn covering(tops: Seq<(u64, Option<String>)>, game: u64, base: u64) -> Option<
    Seq<char>,
> {
    if tops_somewhere(tops, game) {
        None
    } else {
        match first_rival(tops, game, base, 0) {
            Some(i) => Some(owner_name(tops[i as int].1)),
            None => None,
        }
    }
}

/// Whose paint covers the game, given the topmost claim of each surface that the game claims.
pub fn covered_by_decision(tops: &[(u64, Option<String>)], game: u64, base: u64) -> (r: Option<
    String,
>)
    ensures
        match r {
            Some(s) => covering(tops@, game, base) == Some(s@),
            None => covering(tops@, game, base) is None,
        },
{
    let mut i: usize = 0;
    while i < tops.len()
        invariant
            i <= tops@.len(),
            forall|j: int| 0 <= j < i ==> (#[trigger] tops@[j]).0 != game,
        decreases tops@.len() - i,
    {
        if tops[i].0 == game {
            proof {
                assert(tops@[i as int].0 == game);
            }
            return None;
        }
        i = i + 1;
    }
    let mut k: usize = 0;
    while k < tops.len()
        invariant
            k <= tops@.len(),
            !tops_somewhere(tops@, game),
            first_rival(tops@, game, base, 0) == first_rival(tops@, game, base, k as nat),
        decreases tops@.len() - k,
    {
        if tops[k].0 != game && tops[k].0 != base {
            return Some(name_of_owner(&tops[k].1));
        }
        k = k + 1;
    }
    None
}

// ── who is in control of a board ────────────────────────────────────────────────────────────────

/// Who is in control of a board.
#[derive(Debug, PartialEq)]
pub enum BoardOwner {
    /// The user's own lighting shows.
    Yours,
    /// A named client paints on top.
    Painting(String),
    /// A named client is there, and the user's lighting wins.
    Suppressed(String),
}

/// Who is in control of a board, with the name as a sequence.
pub enum OwnerView {
    Yours,
    Painting(Seq<char>),
    Suppressed(Seq<char>),
}

impl View for BoardOwner {
    type V = OwnerView;

    open spec fn view(&self) -> OwnerView {
        match self {
            BoardOwner::Yours => OwnerView::Yours,
            BoardOwner::Painting(s) => OwnerView::Painting(s@),
            BoardOwner::Suppressed(s) => OwnerView::Suppressed(s@),
        }
    }
}

/// The first claim from `from` on that is not the app's.
pub open spec fn first_foreign(claims: Seq<Claim>, base: u64, from: nat) -> Option<nat>
    decreases claims.len() - from,
{
    if from >= claims.len() {
        None
    } else if claims[from as int].owner != base {
        Some(from)
    } else {
        first_foreign(claims, base, from + 1)
    }
}

/// Who is in control of one surface: a foreign claim paints where nothing of ours stands above it.
pub open spec fn surface_owner(claims: Seq<Claim>, base: u64) -> OwnerView {
    match first_foreign(claims, base, 0) {
        None => OwnerView::Yours,
        Some(i) => if i == 0 {
            OwnerView::Painting(owner_name(claims[0].label))
        } else {
            OwnerView::Suppressed(owner_name(claims[i as int].label))
        },
    }
}

/// Who is in control of the first `k` surfaces: the first painter outranks the first suppressed
/// client, which outranks the user's own lighting.
pub open spec fn owner_of(boards: Seq<Vec<Claim>>, base: u64, k: nat) -> OwnerView
    decreases k,
{
    if k == 0 || k > boards.len() {
        OwnerView::Yours
    } else {
        let before = owner_of(boards, base, (k - 1) as nat);
        let this = surface_owner(boards[k - 1]@, base);
        match before {
            OwnerView::Painting(_) => before,
            OwnerView::Suppressed(_) => if this is Painting {
                this
            } else {
                before
            },
            OwnerView::Yours => this,
        }
    }
}

proof fn lemma_painting_stays(boards: Seq<Vec<Claim>>, base: u64, i: nat, k: nat)
    requires
        i <= k <= boards.len(),
        owner_of(boards, base, i) is Painting,
    ensures
        owner_of(boards, base, k) == owner_of(boards, base, i),
    decreases k - i,
{
    if i < k {
        lemma_painting_stays(boards, base, i, (k - 1) as nat);
    }
}

fn read_surface(claims: &Vec<Claim>, base: u64) -> (r: BoardOwner)
    ensures
        r@ == surface_owner(claims@, base),
{
    let mut i: usize = 0;
    while i < claims.len()
        invariant
            i <= claims@.len(),
            first_foreign(claims@, base, 0) == first_foreign(claims@, base, i as nat),
        decreases claims@.len() - i,
    {
        if claims[i].owner != base {
            let name = name_of_owner(&claims[i].label);
            return if i == 0 {
                BoardOwner::Painting(name)
            } else {
                BoardOwner::Suppressed(name)
            };
        }
        i = i + 1;
    }
    BoardOwner::Yours
}

/// Who is in control of a board, given the claims on each surface that it addresses. `base` is the
/// app's own id where the connections are open.
pub fn board_owner(base: Option<u64>, boards: &Vec<Vec<Claim>>) -> (r: BoardOwner)
    ensures
        r@ == match base {
            Some(b) => owner_of(boards@, b, boards@.len()),
            None => OwnerView::Yours,
        },
{
    let owner = match base {
        Some(b) => b,
        None => {
            return BoardOwner::Yours;
        },
    };
    let mut best = BoardOwner::Yours;
    let mut i: usize = 0;
    while i < boards.len()
        invariant
            i <= boards@.len(),
            base == Some(owner),
            best@ == owner_of(boards@, owner, i as nat),
            !(best is Painting),
        decreases boards@.len() - i,
    {
        let this = read_surface(&boards[i], owner);
        match &this {
            BoardOwner::Painting(_) => {
                proof {
                    assert(this@ == owner_of(boards@, owner, i as nat + 1));
                    lemma_painting_stays(boards@, owner, i as nat + 1, boards@.len());
                }
                return this;
            },
            BoardOwner::Suppressed(_) => {
                if let BoardOwner::Yours = &best {
                    best = this;
                }
            },
            BoardOwner::Yours => {},
        }
        i = i + 1;
    }
    best
}

// ── clients ─────────────────────────────────────────────────────────────────────────────────────

/// A connected client, as the card shows it.
#[derive(Debug, PartialEq)]
pub struct ClientStatus {
    pub name: String,
    /// The kinds of surface on which the client is on top.
    pub painting: Vec<String>,
    /// Whether the client has a claim anywhere.
    pub has_claim: bool,
    /// Whether the user turned this family's paint down to nothing.
    pub muted: bool,
}

/// A surface: its kind, and the claims on it.
pub struct Board {
    pub kind: SurfaceKind,
    pub claims: Vec<Claim>,
}

/// `owner` has a claim on the surface.
pub open spec fn claims_board(b: Board, owner: u64) -> bool {
    exists|i: int| 0 <= i < b.claims@.len() && (#[trigger] b.claims@[i]).owner == owner
}

/// `owner` is on top of the surface.
pub open spec fn tops_board(b: Board, owner: u64) -> bool {
    b.claims@.len() > 0 && b.claims@[0].owner == owner
}

/// `owner` has a claim on any of the surfaces.
pub open spec fn claims_any(boards: Seq<Board>, owner: u64) -> bool {
    exists|i: int| 0 <= i < boards.len() && #[trigger] claims_board(boards[i], owner)
}

/// The kinds of the first `k` surfaces on which `owner` is on top, each once.
pub open spec fn painted_kinds(boards: Seq<Board>, owner: u64, k: nat) -> Seq<Seq<char>>
    decreases k,
{
    if k == 0 || k > boards.len() {
        Seq::empty()
    } else {
        let before = painted_kinds(boards, owner, (k - 1) as nat);
        let b = boards[k - 1];
        if tops_board(b, owner) && !before.contains(word_of(b.kind)) {
            before.push(word_of(b.kind))
        } else {
            before
        }
    }
}

/// What a client's status says.
pub open spec fn client_shows(
    c: ClientStatus,
    owner: u64,
    name: Seq<char>,
    boards: Seq<Board>,
    muted: bool,
) -> bool {
    &&& c.name@ == name
    &&& texts(c.painting@) == painted_kinds(boards, owner, boards.len())
    &&& c.has_claim == claims_any(boards, owner)
    &&& c.muted == muted
}

fn has_claim_on(b: &Board, owner: u64) -> (r: bool)
    ensures
        r == claims_board(*b, owner),
{
    let mut i: usize = 0;
    while i < b.claims.len()
        invariant
            i <= b.claims@.len(),
            forall|j: int| 0 <= j < i ==> (#[trigger] b.claims@[j]).owner != owner,
        decreases b.claims@.len() - i,
    {
        if b.claims[i].owner == owner {
            return true;
        }
        i = i + 1;
    }
    false
}

fn client_status(owner: u64, name: &str, boards: &Vec<Board>, muted: bool) -> (r: ClientStatus)
    ensures
        client_shows(r, owner, name@, boards@, muted),
{
    let mut painting: Vec<String> = Vec::new();
    let mut has_claim = false;
    let mut i: usize = 0;
    proof {
        assert(texts(painting@) =~= painted_kinds(boards@, owner, 0));
    }
    while i < boards.len()
        invariant
            i <= boards@.len(),
            texts(painting@) == painted_kinds(boards@, owner, i as nat),
            has_claim <==> exists|j: int| 0 <= j < i && #[trigger] claims_board(boards@[j], owner),
        decreases boards@.len() - i,
    {
        let b = &boards[i];
        if has_claim_on(b, owner) {
            has_claim = true;
        }
        let word = kind_word(b.kind);
        if b.claims.len() > 0 && b.claims[0].owner == owner && !list_has(&painting, word) {
            let k: String = word.to_owned();
            proof {
                crate::text::lemma_texts_push(painting@, k);
            }
            painting.push(k);
        }
        i = i + 1;
    }
    ClientStatus { name: name.to_owned(), painting, has_claim, muted }
}

/// The status of each client of a roster.
pub fn client_statuses(roster: &Vec<(u64, String)>, boards: &Vec<Board>, muted: bool) -> (r: Vec<
    ClientStatus,
>)
    ensures
        r@.len() == roster@.len(),
        forall|i: int|
            0 <= i < r@.len() ==> client_shows(
                #[trigger] r@[i],
                roster@[i].0,
                roster@[i].1@,
                boards@,
                muted,
            ),
{
    let mut out: Vec<ClientStatus> = Vec::new();
    let mut i: usize = 0;
    while i < roster.len()
        invariant
            i <= roster@.len(),
            out@.len() == i,
            forall|j: int|
                0 <= j < i ==> client_shows(
                    #[trigger] out@[j],
                    roster@[j].0,
                    roster@[j].1@,
                    boards@,
                    muted,
                ),
        decreases roster@.len() - i,
    {
        out.push(client_status(roster[i].0, roster[i].1.as_str(), boards, muted));
        i = i + 1;
    }
    out
}

/// A client that paints has a claim.
pub proof fn law_painter_has_claim(boards: Seq<Board>, owner: u64, k: nat)
    requires
        k <= boards.len(),
        painted_kinds(boards, owner, k).len() > 0,
    ensures
        claims_any(boards, owner),
    decreases k,
{
    if k > 0 {
        if tops_board(boards[k - 1], owner) {
            assert(boards[k - 1].claims@[0].owner == owner);
            assert(claims_board(boards[k - 1], owner));
        } else {
            law_painter_has_claim(boards, owner, (k - 1) as nat);
        }
    }
}

/// No kind is listed twice among what a client paints.
pub proof fn law_painted_kinds_differ(boards: Seq<Board>, owner: u64, k: nat)
    ensures
        forall|i: int, j: int|
            0 <= i < j < painted_kinds(boards, owner, k).len() ==> #[trigger] painted_kinds(
                boards,
                owner,
                k,
            )[i] != #[trigger] painted_kinds(boards, owner, k)[j],
    decreases k,
{
    if 0 < k <= boards.len() {
        law_painted_kinds_differ(boards, owner, (k - 1) as nat);
        let before = painted_kinds(boards, owner, (k - 1) as nat);
        let all = painted_kinds(boards, owner, k);
        assert forall|i: int, j: int| 0 <= i < j < all.len() implies #[trigger] all[i]
            != #[trigger] all[j] by {
            assert(all[i] == before[i]);
            if j == before.len() {
                assert(before.contains(before[i]));
            } else {
                assert(all[j] == before[j]);
            }
        }
    }
}

// ── what a native game shows ────────────────────────────────────────────────────────────────────

/// What a game paints on one class of device.
#[derive(Debug, PartialEq)]
pub struct NativeChromaStream {
    pub device: String,
    pub effect: String,
    pub timestamp_ms: u32,
    pub lit: usize,
    pub total: usize,
    pub colors: Vec<(u8, u8, u8)>,
}

/// What a game paints.
#[derive(Debug, PartialEq)]
pub struct NativeChroma {
    pub game: String,
    pub devices: usize,
    pub effect: String,
    pub streams: Vec<NativeChromaStream>,
    /// Whose paint covers the game's, if it shows nowhere.
    pub covered_by: Option<String>,
}

/// What the native face decoded of one class of device: `units` is its last frame, if there is one,
/// and `lead` the number of units in front of it that are no light.
pub struct Activity {
    pub device_type: u8,
    pub effect: String,
    pub timestamp_ms: u32,
    pub units: Option<Vec<(u8, u8, u8)>>,
    pub lead: usize,
}

/// The unit is lit.
pub open spec fn is_lit(u: (u8, u8, u8)) -> bool {
    u.0 != 0 || u.1 != 0 || u.2 != 0
}

/// How many of the first `k` units behind the first `lead` are lit.
pub open spec fn lit_count(units: Seq<(u8, u8, u8)>, lead: nat, k: nat) -> nat
    decreases k,
{
    if k == 0 || k > units.len() {
        0
    } else {
        lit_count(units, lead, (k - 1) as nat) + if k > lead && is_lit(units[k - 1]) {
            1nat
        } else {
            0nat
        }
    }
}

/// The coarse color that a unit counts for.
pub open spec fn bucket(u: (u8, u8, u8)) -> (u8, u8, u8) {
    (u.0 & 0xf0, u.1 & 0xf0, u.2 & 0xf0)
}

/// How many of the first `k` units behind the first `lead` are lit in the coarse color `c`.
pub open spec fn color_count(
    units: Seq<(u8, u8, u8)>,
    lead: nat,
    k: nat,
    c: (u8, u8, u8),
) -> nat
    decreases k,
{
    if k == 0 || k > units.len() {
        0
    } else {
        color_count(units, lead, (k - 1) as nat, c) + if k > lead && is_lit(units[k - 1]) && bucket(
            units[k - 1],
        ) == c {
            1nat
        } else {
            0nat
        }
    }
}

/// The coarse colors of the lit units among the first `k` behind the first `lead`, in the order in
/// which they first appear.
pub open spec fn colors_seen(units: Seq<(u8, u8, u8)>, lead: nat, k: nat) -> Seq<(u8, u8, u8)>
    decreases k,
{
    if k == 0 || k > units.len() {
        Seq::empty()
    } else {
        let before = colors_seen(units, lead, (k - 1) as nat);
        let c = bucket(units[k - 1]);
        if k > lead && is_lit(units[k - 1]) && !before.contains(c) {
            before.push(c)
        } else {
            before
        }
    }
}

/// The entry `a` ranks before the entry `b`: it counts more, or as much and stands further ahead.
pub open spec fn ranks_before(counts: Seq<nat>, a: int, b: int) -> bool {
    counts[a] > counts[b] || (counts[a] == counts[b] && a < b)
}

/// `top` lists the three entries that rank before all others, or all where there are fewer, in the
/// order of their rank.
pub open spec fn top_three(counts: Seq<nat>, top: Seq<int>) -> bool {
    &&& top.len() == if counts.len() < 3 {
        counts.len()
    } else {
        3
    }
    &&& forall|a: int| 0 <= a < top.len() ==> 0 <= #[trigger] top[a] < counts.len()
    &&& forall|a: int, b: int|
        0 <= a < b < top.len() ==> ranks_before(counts, #[trigger] top[a], #[trigger] top[b])
    &&& forall|a: int, j: int|
        0 <= a < top.len() && 0 <= j < counts.len() && !top.contains(j) ==> #[trigger] ranks_before(
            counts,
            top[a],
            j,
        )
}

/// How often each coarse color of a frame occurs.
pub open spec fn color_counts(units: Seq<(u8, u8, u8)>, lead: nat) -> Seq<nat> {
    Seq::new(
        colors_seen(units, lead, units.len()).len(),
        |i: int| color_count(units, lead, units.len(), colors_seen(units, lead, units.len())[i]),
    )
}

/// `colors` holds the three coarse colors that a frame shows most, the most frequent first; of two
/// that are as frequent, the one that appears first.
pub open spec fn dominant(units: Seq<(u8, u8, u8)>, lead: nat, colors: Seq<(u8, u8, u8)>) -> bool {
    let seen = colors_seen(units, lead, units.len());
    exists|top: Seq<int>| #[trigger]
        top_three(color_counts(units, lead), top) && colors == Seq::new(
            top.len(),
            |a: int| seen[top[a]],
        )
}

proof fn lemma_color_count_bound(units: Seq<(u8, u8, u8)>, lead: nat, k: nat, c: (u8, u8, u8))
    ensures
        color_count(units, lead, k, c) <= k,
        !colors_seen(units, lead, k).contains(c) ==> color_count(units, lead, k, c) == 0,
    decreases k,
{
    if 0 < k <= units.len() {
        lemma_color_count_bound(units, lead, (k - 1) as nat, c);
        let before = colors_seen(units, lead, (k - 1) as nat);
        let all = colors_seen(units, lead, k);
        if before.contains(c) {
            let i = choose|i: int| 0 <= i < before.len() && before[i] == c;
            assert(all[i] == c);
        } else if k > lead && is_lit(units[k - 1]) && bucket(units[k - 1]) == c {
            assert(all.last() == c);
        }
    }
}

proof fn lemma_colors_differ(units: Seq<(u8, u8, u8)>, lead: nat, k: nat)
    ensures
        forall|i: int, j: int|
            0 <= i < j < colors_seen(units, lead, k).len() ==> #[trigger] colors_seen(
                units,
                lead,
                k,
            )[i] != #[trigger] colors_seen(units, lead, k)[j],
    decreases k,
{
    if 0 < k <= units.len() {
        lemma_colors_differ(units, lead, (k - 1) as nat);
        let before = colors_seen(units, lead, (k - 1) as nat);
        let all = colors_seen(units, lead, k);
        assert forall|i: int, j: int| 0 <= i < j < all.len() implies #[trigger] all[i]
            != #[trigger] all[j] by {
            assert(all[i] == before[i]);
            if j == before.len() {
                assert(before.contains(before[i]));
            } else {
                assert(all[j] == before[j]);
            }
        }
    }
}

fn unit_lit(u: (u8, u8, u8)) -> (r: bool)
    ensures
        r == is_lit(u),
{
    u.0 != 0 || u.1 != 0 || u.2 != 0
}

fn same_color(a: (u8, u8, u8), b: (u8, u8, u8)) -> (r: bool)
    ensures
        r == (a == b),
{
    a.0 == b.0 && a.1 == b.1 && a.2 == b.2
}

/// How many units of a frame are lit.
pub fn lit_units(units: &Vec<(u8, u8, u8)>, lead: usize) -> (r: usize)
    ensures
        r == lit_count(units@, lead as nat, units@.len()),
        r <= units@.len(),
{
    let mut n: usize = 0;
    let mut i: usize = 0;
    while i < units.len()
        invariant
            i <= units@.len(),
            n == lit_count(units@, lead as nat, i as nat),
            n <= i,
        decreases units@.len() - i,
    {
        if i >= lead && unit_lit(units[i]) {
            n = n + 1;
        }
        i = i + 1;
    }
    n
}

/// The coarse colors of a frame, in the order in which they first appear, and how often each occurs.
fn tally(units: &Vec<(u8, u8, u8)>, lead: usize) -> (r: (Vec<(u8, u8, u8)>, Vec<usize>))
    ensures
        r.0@ == colors_seen(units@, lead as nat, units@.len()),
        r.1@.len() == r.0@.len(),
        forall|j: int|
            0 <= j < r.1@.len() ==> #[trigger] r.1@[j] == color_counts(units@, lead as nat)[j],
{
    let mut colors: Vec<(u8, u8, u8)> = Vec::new();
    let mut counts: Vec<usize> = Vec::new();
    let ghost l = lead as nat;
    let mut i: usize = 0;
    while i < units.len()
        invariant
            i <= units@.len(),
            l == lead,
            colors@ == colors_seen(units@, l, i as nat),
            counts@.len() == colors@.len(),
            forall|j: int|
                0 <= j < counts@.len() ==> #[trigger] counts@[j] == color_count(
                    units@,
                    l,
                    i as nat,
                    colors@[j],
                ),
        decreases units@.len() - i,
    {
        let u = units[i];
        let ghost before = colors@;
        let ghost counted = counts@;
        if i >= lead && unit_lit(u) {
            let c = (u.0 & 0xf0, u.1 & 0xf0, u.2 & 0xf0);
            let mut at: usize = 0;
            while at < colors.len() && !same_color(colors[at], c)
                invariant
                    at <= colors@.len(),
                    forall|j: int| 0 <= j < at ==> colors@[j] != c,
                decreases colors@.len() - at,
            {
                at = at + 1;
            }
            proof {
                lemma_colors_differ(units@, l, i as nat);
                lemma_color_count_bound(units@, l, i as nat, c);
                assert(c == bucket(units@[i as int]));
            }
            if at < colors.len() {
                proof {
                    assert(before.contains(c));
                    assert(counts@[at as int] <= i);
                }
                let n: usize = counts[at];
                counts.set(at, n + 1);
                proof {
                    assert forall|j: int| 0 <= j < counts@.len() implies #[trigger] counts@[j]
                        == color_count(units@, l, i as nat + 1, colors@[j]) by {
                        assert(counted[j] == color_count(units@, l, i as nat, colors@[j]));
                        if j != at {
                            assert(colors@[j] != colors@[at as int]);
                        }
                    }
                }
            } else {
                proof {
                    assert(!before.contains(c));
                }
                colors.push(c);
                counts.push(1);
                proof {
                    assert forall|j: int| 0 <= j < counts@.len() implies #[trigger] counts@[j]
                        == color_count(units@, l, i as nat + 1, colors@[j]) by {
                        if j < before.len() {
                            assert(colors@[j] == before[j]);
                            assert(counted[j] == color_count(units@, l, i as nat, before[j]));
                        }
                    }
                }
            }
        } else {
            proof {
                assert forall|j: int| 0 <= j < counts@.len() implies #[trigger] counts@[j]
                    == color_count(units@, l, i as nat + 1, colors@[j]) by {
                    assert(counted[j] == color_count(units@, l, i as nat, colors@[j]));
                }
            }
        }
        i = i + 1;
    }
    (colors, counts)
}

/// The entry that ranks before all others that are not taken, if there is one.
fn leader(counts: &Vec<usize>, taken: &Vec<usize>) -> (r: Option<usize>)
    ensures
        match r {
            Some(i) => i < counts@.len() && !taken@.contains(i) && forall|j: int|
                0 <= j < counts@.len() && j != i && !#[trigger] taken@.contains(j as usize) ==> (
                counts@[i as int] > counts@[j] || (counts@[i as int] == counts@[j] && i < j)),
            None => forall|j: int|
                0 <= j < counts@.len() ==> #[trigger] taken@.contains(j as usize),
        },
{
    let mut best: Option<usize> = None;
    let mut i: usize = 0;
    while i < counts.len()
        invariant
            i <= counts@.len(),
            match best {
                Some(b) => b < i && !taken@.contains(b) && forall|j: int|
                    0 <= j < i && j != b && !#[trigger] taken@.contains(j as usize) ==> (
                    counts@[b as int] > counts@[j] || (counts@[b as int] == counts@[j] && b < j)),
                None => forall|j: int| 0 <= j < i ==> #[trigger] taken@.contains(j as usize),
            },
        decreases counts@.len() - i,
    {
        let mut free = true;
        let mut k: usize = 0;
        while k < taken.len()
            invariant
                k <= taken@.len(),
                free == forall|j: int| 0 <= j < k ==> taken@[j] != i,
            decreases taken@.len() - k,
        {
            if taken[k] == i {
                free = false;
            }
            k = k + 1;
        }
        proof {
            assert(free == !taken@.contains(i));
        }
        if free {
            match best {
                Some(b) => {
                    if counts[i] > counts[b] {
                        best = Some(i);
                    }
                },
                None => {
                    best = Some(i);
                },
            }
        }
        i = i + 1;
    }
    best
}

/// The three coarse colors that a frame shows most, the most frequent first.
pub fn dominant_colors(units: &Vec<(u8, u8, u8)>, lead: usize) -> (r: Vec<(u8, u8, u8)>)
    ensures
        dominant(units@, lead as nat, r@),
{
    let (colors, counts) = tally(units, lead);
    let ghost all = color_counts(units@, lead as nat);
    let mut top: Vec<usize> = Vec::new();
    let mut out: Vec<(u8, u8, u8)> = Vec::new();
    while top.len() < 3 && top.len() < colors.len()
        invariant
            top@.len() <= 3,
            top@.len() <= colors@.len(),
            counts@.len() == colors@.len(),
            all.len() == colors@.len(),
            forall|j: int| 0 <= j < counts@.len() ==> #[trigger] counts@[j] == all[j],
            out@.len() == top@.len(),
            forall|a: int|
                0 <= a < top@.len() ==> 0 <= #[trigger] top@[a] < colors@.len() && out@[a]
                    == colors@[top@[a] as int],
            forall|a: int, b: int|
                0 <= a < b < top@.len() ==> ranks_before(
                    all,
                    #[trigger] top@[a] as int,
                    #[trigger] top@[b] as int,
                ),
            forall|a: int, j: int|
                0 <= a < top@.len() && 0 <= j < colors@.len() && !#[trigger] top@.contains(
                    j as usize,
                ) ==> ranks_before(all, #[trigger] top@[a] as int, j),
        decreases 3 - top@.len(),
    {
        let ghost before = top@;
        match leader(&counts, &top) {
            Some(i) => {
                top.push(i);
                out.push(colors[i]);
                proof {
                    assert(top@.last() == i);
                    assert forall|a: int, b: int| 0 <= a < b < top@.len() implies ranks_before(
                        all,
                        #[trigger] top@[a] as int,
                        #[trigger] top@[b] as int,
                    ) by {
                        assert(top@[a] == before[a]);
                        if b == before.len() {
                            assert(!before.contains(i as int as usize));
                        } else {
                            assert(top@[b] == before[b]);
                        }
                    }
                    assert forall|a: int, j: int|
                        0 <= a < top@.len() && 0 <= j < colors@.len() && !#[trigger] top@.contains(
                            j as usize,
                        ) implies ranks_before(all, #[trigger] top@[a] as int, j) by {
                        if before.contains(j as usize) {
                            let q = choose|q: int| 0 <= q < before.len() && before[q] == j as usize;
                            assert(top@[q] == j as usize);
                        }
                        assert(!before.contains(j as usize));
                        if a < before.len() {
                            assert(top@[a] == before[a]);
                        } else {
                            assert(j != i) by {
                                if j == i {
                                    assert(top@.contains(top@.last()));
                                }
                            }
                        }
                    }
                }
            },
            None => {
                proof {
                    // fewer entries are taken than there are, so one is free
                    lemma_some_free(before, colors@.len());
                }
            },
        }
    }
    proof {
        let seen = colors_seen(units@, lead as nat, units@.len());
        let idx = Seq::new(top@.len(), |a: int| top@[a] as int);
        assert forall|a: int, j: int|
            0 <= a < idx.len() && 0 <= j < all.len() && !idx.contains(j) implies #[trigger] ranks_before(
            all,
            idx[a],
            j,
        ) by {
            if top@.contains(j as usize) {
                let q = choose|q: int| 0 <= q < top@.len() && top@[q] == j as usize;
                assert(idx[q] == j);
            }
            assert(!top@.contains(j as usize));
            assert(idx[a] == top@[a]);
        }
        assert forall|a: int, b: int| 0 <= a < b < idx.len() implies ranks_before(
            all,
            #[trigger] idx[a],
            #[trigger] idx[b],
        ) by {
            assert(idx[a] == top@[a] && idx[b] == top@[b]);
        }
        assert(top_three(all, idx));
        assert(out@ =~= Seq::new(idx.len(), |a: int| seen[idx[a]]));
    }
    out
}

proof fn lemma_some_free(taken: Seq<usize>, n: nat)
    requires
        taken.len() < 3,
        taken.len() < n <= usize::MAX,
    ensures
        exists|j: int| 0 <= j < n && !#[trigger] taken.contains(j as usize),
{
    if taken.len() == 0 {
        assert(!taken.contains(0int as usize));
    } else if taken.len() == 1 {
        let j: int = if taken[0] == 0 {
            1
        } else {
            0
        };
        assert(!taken.contains(j as usize));
    } else {
        let j: int = if taken[0] != 0 && taken[1] != 0 {
            0
        } else if taken[0] != 1 && taken[1] != 1 {
            1
        } else {
            2
        };
        assert(!taken.contains(j as usize));
    }
}

/// The activity shows light: there is a frame, and a unit of it is lit.
pub open spec fn shows_light(a: Activity) -> bool {
    a.units matches Some(u) && lit_count(u@, a.lead as nat, u@.len()) > 0
}

/// The indices of those of the first `k` activities that show light.
pub open spec fn lit_activities(acts: Seq<Activity>, k: nat) -> Seq<int>
    decreases k,
{
    if k == 0 || k > acts.len() {
        Seq::empty()
    } else {
        let before = lit_activities(acts, (k - 1) as nat);
        if shows_light(acts[k - 1]) {
            before.push(k - 1)
        } else {
            before
        }
    }
}

/// What the readout says of an activity that shows light.
pub open spec fn stream_shows(s: NativeChromaStream, a: Activity) -> bool {
    a.units matches Some(u) && {
        &&& s.device@ == code_word(a.device_type)
        &&& s.effect@ == lowercase(a.effect@)
        &&& s.timestamp_ms == a.timestamp_ms
        &&& s.lit == lit_count(u@, a.lead as nat, u@.len())
        &&& s.total == if u@.len() < a.lead {
            0
        } else {
            u@.len() - a.lead
        }
        &&& dominant(u@, a.lead as nat, s.colors@)
    }
}

/// The readout of every activity that shows light.
pub fn streams_of(acts: &Vec<Activity>) -> (r: Vec<NativeChromaStream>)
    ensures
        r@.len() == lit_activities(acts@, acts@.len()).len(),
        forall|i: int|
            0 <= i < r@.len() ==> stream_shows(
                #[trigger] r@[i],
                acts@[lit_activities(acts@, acts@.len())[i]],
            ),
{
    let mut out: Vec<NativeChromaStream> = Vec::new();
    let mut i: usize = 0;
    while i < acts.len()
        invariant
            i <= acts@.len(),
            out@.len() == lit_activities(acts@, i as nat).len(),
            forall|j: int|
                0 <= j < out@.len() ==> stream_shows(
                    #[trigger] out@[j],
                    acts@[lit_activities(acts@, i as nat)[j]],
                ),
        decreases acts@.len() - i,
    {
        let a = &acts[i];
        let ghost before = out@;
        let ghost idx = lit_activities(acts@, i as nat);
        if let Some(units) = &a.units {
            let lit: usize = lit_units(units, a.lead);
            if lit > 0 {
                let total: usize = units.len().saturating_sub(a.lead);
                let stream = NativeChromaStream {
                    device: chroma_device_name(a.device_type).to_owned(),
                    effect: to_lowercase(a.effect.as_str()),
                    timestamp_ms: a.timestamp_ms,
                    lit,
                    total,
                    colors: dominant_colors(units, a.lead),
                };
                out.push(stream);
                proof {
                    assert(stream_shows(stream, *a));
                    assert forall|j: int| 0 <= j < out@.len() implies stream_shows(
                        #[trigger] out@[j],
                        acts@[lit_activities(acts@, i as nat + 1)[j]],
                    ) by {
                        if j < before.len() {
                            assert(out@[j] == before[j]);
                        }
                    }
                }
            }
        }
        i = i + 1;
    }
    out
}

/// What the native face reports while it serves.
pub struct NativeReadings {
    /// Whether a game is connected.
    pub connected: bool,
    /// The number of lit device classes and the effect, where there is a live frame.
    pub summary: Option<(usize, String)>,
    /// The name of the first registered game's process.
    pub process: Option<String>,
    pub activities: Vec<Activity>,
    /// The topmost claim of each surface that the face claims.
    pub tops: Vec<(u64, Option<String>)>,
    /// The arbiter's id for the face.
    pub src: u64,
}

/// What the card says of the game.
pub open spec fn native_shows(g: NativeChroma, n: NativeReadings, base: u64) -> bool {
    n.summary matches Some((devices, effect)) && {
        &&& g.game@ == match n.process {
            Some(p) => p@,
            None => "a game"@,
        }
        &&& g.devices == devices
        &&& g.effect@ == lowercase(effect@)
        &&& g.streams@.len() == lit_activities(n.activities@, n.activities@.len()).len()
        &&& forall|i: int|
            0 <= i < g.streams@.len() ==> stream_shows(
                #[trigger] g.streams@[i],
                n.activities@[lit_activities(n.activities@, n.activities@.len())[i]],
            )
        &&& covering(n.tops@, n.src, base) == match g.covered_by {
            Some(s) => Some(s@),
            None => None,
        }
    }
}

/// Whether the native face serves, and what a connected game with a live frame shows.
pub fn native_chroma_status(native: &Option<NativeReadings>, base: u64) -> (r: (
    bool,
    Option<NativeChroma>,
))
    ensures
        r.0 == (*native is Some),
        match r.1 {
            Some(g) => *native matches Some(n) && n.connected && native_shows(g, n, base),
            None => *native matches Some(n) ==> !n.connected || n.summary is None,
        },
{
    match native {
        None => (false, None),
        Some(n) => {
            if !n.connected {
                return (true, None);
            }
            match &n.summary {
                None => (true, None),
                Some((devices, effect)) => {
                    let game = match &n.process {
                        Some(p) => p.clone(),
                        None => "a game".to_owned(),
                    };
                    let g = NativeChroma {
                        game,
                        devices: *devices,
                        effect: to_lowercase(effect.as_str()),
                        streams: streams_of(&n.activities),
                        covered_by: covered_by_decision(n.tops.as_slice(), n.src, base),
                    };
                    (true, Some(g))
                },
            }
        },
    }
}

// ── the whole card ──────────────────────────────────────────────────────────────────────────────

/// What the connections card shows.
#[derive(Debug, PartialEq)]
pub struct Status {
    pub active: bool,
    pub devices: usize,
    pub game_devices: Vec<GameDeviceScope>,
    pub chroma_serving: bool,
    pub chroma_native_serving: bool,
    pub chroma_native_game: Option<NativeChroma>,
    /// Why the native face does not serve.
    pub chroma_native_error: Option<String>,
    pub openrgb_serving: bool,
    pub obs_connected: bool,
    /// What OBS itself announced; empty and false while it is not connected.
    pub obs_scene: String,
    pub obs_streaming: bool,
    pub obs_recording: bool,
    pub chroma_clients: Vec<ClientStatus>,
    pub openrgb_clients: Vec<ClientStatus>,
}

/// The card of closed connections.
pub open spec fn is_closed(s: Status) -> bool {
    &&& !s.active
    &&& s.devices == 0
    &&& s.game_devices@.len() == 0
    &&& !s.chroma_serving
    &&& !s.chroma_native_serving
    &&& s.chroma_native_game is None
    &&& s.chroma_native_error is None
    &&& !s.openrgb_serving
    &&& !s.obs_connected
    &&& s.obs_scene@.len() == 0
    &&& !s.obs_streaming
    &&& !s.obs_recording
    &&& s.chroma_clients@.len() == 0
    &&& s.openrgb_clients@.len() == 0
}

impl Default for Status {
    fn default() -> (r: Self)
        ensures
            is_closed(r),
    {
        Status {
            active: false,
            devices: 0,
            game_devices: Vec::new(),
            chroma_serving: false,
            chroma_native_serving: false,
            chroma_native_game: None,
            chroma_native_error: None,
            openrgb_serving: false,
            obs_connected: false,
            obs_scene: String::new(),
            obs_streaming: false,
            obs_recording: false,
            chroma_clients: Vec::new(),
            openrgb_clients: Vec::new(),
        }
    }
}

/// What the open connections report.
pub struct HostReadings {
    pub bridge: Bridge,
    /// The claims on each surface.
    pub boards: Vec<Board>,
    /// The arbiter's id for the app.
    pub base_owner: u64,
    /// The sessions of the Chroma server, where it serves.
    pub chroma_sessions: Option<Vec<(u64, String)>>,
    /// How strongly Chroma clients paint, in percent.
    pub chroma_strength: u32,
    /// The clients of the OpenRGB server, where it serves.
    pub openrgb_clients: Option<Vec<(u64, String)>>,
    /// How strongly OpenRGB clients paint, in percent.
    pub openrgb_strength: u32,
    pub native: Option<NativeReadings>,
    pub native_error: Option<String>,
    /// Whether the OBS connection authenticated, where there is one.
    pub obs: Option<bool>,
    /// What OBS announced last.
    pub mirror: ObsSnapshot,
}

/// The clients shown for a roster: none where the server does not serve, and all muted where their
/// paint is turned down to nothing.
pub open spec fn clients_show(
    v: Seq<ClientStatus>,
    roster: Option<Vec<(u64, String)>>,
    boards: Seq<Board>,
    strength: u32,
) -> bool {
    match roster {
        None => v.len() == 0,
        Some(r) => v.len() == r@.len() && forall|i: int|
            0 <= i < v.len() ==> client_shows(
                #[trigger] v[i],
                r@[i].0,
                r@[i].1@,
                boards,
                strength == 0,
            ),
    }
}

/// An optional text as a sequence.
pub open spec fn opt_text(s: Option<String>) -> Option<Seq<char>> {
    match s {
        Some(t) => Some(t@),
        None => None,
    }
}

/// What the card shows of open connections.
pub open spec fn status_shows(s: Status, h: HostReadings) -> bool {
    &&& s.active
    &&& s.devices == h.bridge.surfaces@.len()
    &&& pairs_sorted(pairs(s.game_devices@))
    &&& pairs(s.game_devices@).to_multiset() == scope_pairs(
        h.bridge,
        h.bridge.units@.len(),
    ).to_multiset()
    &&& s.chroma_serving == (h.chroma_sessions is Some)
    &&& s.chroma_native_serving == (h.native is Some)
    &&& match s.chroma_native_game {
        Some(g) => h.native matches Some(n) && n.connected && native_shows(g, n, h.base_owner),
        None => h.native matches Some(n) ==> !n.connected || n.summary is None,
    }
    &&& opt_text(s.chroma_native_error) == if h.native is Some {
        None
    } else {
        opt_text(h.native_error)
    }
    &&& s.openrgb_serving == (h.openrgb_clients is Some)
    &&& s.obs_connected == (h.obs == Some(true))
    &&& s.obs_scene@ == if s.obs_connected {
        h.mirror.scene@
    } else {
        Seq::empty()
    }
    &&& s.obs_streaming == (s.obs_connected && h.mirror.streaming)
    &&& s.obs_recording == (s.obs_connected && h.mirror.recording)
    &&& clients_show(s.chroma_clients@, h.chroma_sessions, h.boards@, h.chroma_strength)
    &&& clients_show(s.openrgb_clients@, h.openrgb_clients, h.boards@, h.openrgb_strength)
}

fn roster_statuses(
    roster: &Option<Vec<(u64, String)>>,
    boards: &Vec<Board>,
    strength: u32,
) -> (r: Vec<ClientStatus>)
    ensures
        clients_show(r@, *roster, boards@, strength),
{
    match roster {
        None => Vec::new(),
        Some(v) => client_statuses(v, boards, strength == 0),
    }
}

fn copy_text(s: &Option<String>) -> (r: Option<String>)
    ensures
        opt_text(r) == opt_text(*s),
{
    match s {
        Some(t) => Some(t.clone()),
        None => None,
    }
}

/// What the connections card shows.
pub fn status(host: &Option<HostReadings>) -> (r: Status)
    ensures
        match *host {
            Some(h) => status_shows(r, h),
            None => is_closed(r),
        },
{
    match host {
        None => Status::default(),
        Some(h) => {
            let (chroma_native_serving, chroma_native_game) = native_chroma_status(
                &h.native,
                h.base_owner,
            );
            let chroma_native_error = if chroma_native_serving {
                None
            } else {
                copy_text(&h.native_error)
            };
            let obs_connected = match h.obs {
                Some(c) => c,
                None => false,
            };
            Status {
                active: true,
                devices: h.bridge.surfaces.len(),
                game_devices: game_device_scope(&h.bridge),
                chroma_serving: h.chroma_sessions.is_some(),
                chroma_native_serving,
                chroma_native_game,
                chroma_native_error,
                openrgb_serving: h.openrgb_clients.is_some(),
                obs_connected,
                obs_scene: if obs_connected {
                    h.mirror.scene.clone()
                } else {
                    String::new()
                },
                obs_streaming: obs_connected && h.mirror.streaming,
                obs_recording: obs_connected && h.mirror.recording,
                chroma_clients: roster_statuses(
                    &h.chroma_sessions,
                    &h.boards,
                    h.chroma_strength,
                ),
                openrgb_clients: roster_statuses(
                    &h.openrgb_clients,
                    &h.boards,
                    h.openrgb_strength,
                ),
            }
        },
    }
}

// ── laws ────────────────────────────────────────────────────────────────────────────────────────

/// A game that is on top of any surface is not covered, whatever is on top elsewhere; and the app's
/// own lighting never covers it.
pub proof fn law_winner_is_not_covered(tops: Seq<(u64, Option<String>)>, game: u64, base: u64)
    ensures
        tops_somewhere(tops, game) ==> covering(tops, game, base) is None,
        (forall|i: int| 0 <= i < tops.len() ==> (#[trigger] tops[i]).0 == base) ==> covering(
            tops,
            game,
            base,
        ) is None,
{
    if forall|i: int| 0 <= i < tops.len() ==> (#[trigger] tops[i]).0 == base {
        lemma_no_rival(tops, game, base, 0);
    }
}

proof fn lemma_no_rival(tops: Seq<(u64, Option<String>)>, game: u64, base: u64, from: nat)
    requires
        forall|i: int| 0 <= i < tops.len() ==> (#[trigger] tops[i]).0 == base,
    ensures
        first_rival(tops, game, base, from) is None,
    decreases tops.len() - from,
{
    if from < tops.len() {
        lemma_no_rival(tops, game, base, from + 1);
    }
}

/// A board is called the user's own exactly where no surface of it has a foreign claim.
pub proof fn law_yours_means_no_foreign_claim(boards: Seq<Vec<Claim>>, base: u64, k: nat)
    requires
        k <= boards.len(),
    ensures
        owner_of(boards, base, k) is Yours <==> forall|i: int|
            0 <= i < k ==> first_foreign((#[trigger] boards[i])@, base, 0) is None,
    decreases k,
{
    if k > 0 {
        law_yours_means_no_foreign_claim(boards, base, (k - 1) as nat);
    }
}

/// A painter on any surface of a board is reported before any suppressed client.
pub proof fn law_painting_outranks_suppressed(boards: Seq<Vec<Claim>>, base: u64, k: nat, i: int)
    requires
        0 <= i < k <= boards.len(),
        surface_owner(boards[i]@, base) is Painting,
    ensures
        owner_of(boards, base, k) is Painting,
    decreases k,
{
    if i < k - 1 {
        law_painting_outranks_suppressed(boards, base, (k - 1) as nat, i);
    }
}

} // verus!

//! The album lists and searches of the Subsonic API: which library entries a
//! request lists, in which order, and which page of them.
use vstd::prelude::*;
use crate::library::LibraryAlbum;
use crate::ordered::lemma_lex_irreflexive;
use crate::ordered::lemma_lex_total;
use crate::ordered::lemma_lex_transitive;
use crate::ordered::lex_less;
use crate::ordered::lex_lt;
use crate::ordered::strings_view;
use crate::outside::to_lowercase;
use crate::outside::unicode_lower;
use crate::text::chars_eq;
use crate::text::chars_of;
use crate::text::find_sub;
use crate::text::find_sub_exec;

verus! {

// ── Stable sorting ──────────────────────────────────────────────────────────

/// `order` with `i` put before the first element that `less` puts above it,
/// so after every element it does not come before.
pub open spec fn insert_stable(order: Seq<int>, i: int, less: spec_fn(int, int) -> bool) -> Seq<int>
    decreases order.len(),
{
    if order.len() == 0 {
        seq![i]
    } else if less(i, order[0]) {
        seq![i] + order
    } else {
        seq![order[0]] + insert_stable(order.drop_first(), i, less)
    }
}

/// `s` sorted stably by `less`: each element in turn goes after every
/// earlier one that it does not come before (the order a stable sort by a
/// comparison gives).
pub open spec fn stable_sort(s: Seq<int>, less: spec_fn(int, int) -> bool) -> Seq<int>
    decreases s.len(),
{
    if s.len() == 0 {
        s
    } else {
        insert_stable(stable_sort(s.drop_last(), less), s.last(), less)
    }
}

/// The indices `0..n`, in order.
pub open spec fn upto(n: nat) -> Seq<int> {
    Seq::new(n, |k: int| k)
}

/// The indices below `n` where `p` holds, in order.
pub open spec fn indices_where(n: nat, p: spec_fn(int) -> bool) -> Seq<int>
    decreases n,
{
    if n == 0 {
        Seq::<int>::empty()
    } else {
        let s = indices_where((n - 1) as nat, p);
        if p(n - 1) {
            s.push(n - 1)
        } else {
            s
        }
    }
}

/// The entries of `s` from `offset` on, at most `size` of them.
pub open spec fn page(s: Seq<int>, offset: int, size: int) -> Seq<int> {
    let from = if offset < s.len() { offset } else { s.len() as int };
    let rest = s.skip(from);
    rest.take(if size < rest.len() { size } else { rest.len() as int })
}

/// `less` is a strict weak order: nothing comes before itself, it is
/// transitive, and so is being in neither order.
pub open spec fn strict_weak_order(less: spec_fn(int, int) -> bool) -> bool {
    &&& forall|a: int| !#[trigger] less(a, a)
    &&& forall|a: int, b: int, c: int| #[trigger] less(a, b) && #[trigger] less(b, c) ==> less(a, c)
    &&& forall|a: int, b: int, c: int|
        !#[trigger] less(a, b) && !less(b, a) && !#[trigger] less(b, c) && !less(c, b) ==> !less(a, c) && !less(c, a)
}

/// `r` is ascending by `less`, and elements in neither order keep their
/// numeric order.
pub open spec fn sorted_stably(r: Seq<int>, less: spec_fn(int, int) -> bool) -> bool {
    forall|p: int, q: int|
        0 <= p < q < r.len() ==> !less(#[trigger] r[q], #[trigger] r[p]) && (less(r[p], r[q]) || r[p] < r[q])
}

spec fn insert_pos(o: Seq<int>, x: int, less: spec_fn(int, int) -> bool) -> nat
    decreases o.len(),
{
    if o.len() == 0 || less(x, o[0]) {
        0
    } else {
        1 + insert_pos(o.drop_first(), x, less)
    }
}

proof fn lemma_insert_pos(o: Seq<int>, x: int, less: spec_fn(int, int) -> bool)
    ensures
        insert_pos(o, x, less) <= o.len(),
        insert_stable(o, x, less) == o.insert(insert_pos(o, x, less) as int, x),
        forall|q: int| 0 <= q < insert_pos(o, x, less) ==> !less(x, #[trigger] o[q]),
        insert_pos(o, x, less) < o.len() ==> less(x, o[insert_pos(o, x, less) as int]),
    decreases o.len(),
{
    if o.len() == 0 {
        assert(o.insert(0, x) =~= seq![x]);
    } else if less(x, o[0]) {
        assert(o.insert(0, x) =~= seq![x] + o);
    } else {
        let t = o.drop_first();
        lemma_insert_pos(t, x, less);
        let j = insert_pos(t, x, less);
        assert(o.insert(j + 1 as int, x) =~= seq![o[0]] + t.insert(j as int, x));
        assert forall|q: int| 0 <= q < j + 1 as int implies !less(x, #[trigger] o[q]) by {
            if q > 0 {
                assert(o[q] == t[q - 1]);
            }
        }
    }
}

proof fn lemma_insert_sorted(o: Seq<int>, x: int, less: spec_fn(int, int) -> bool, j: int)
    requires
        strict_weak_order(less),
        sorted_stably(o, less),
        0 <= j <= o.len(),
        forall|q: int| 0 <= q < o.len() ==> #[trigger] o[q] < x,
        forall|q: int| 0 <= q < j ==> !less(x, #[trigger] o[q]),
        j < o.len() ==> less(x, o[j]),
    ensures
        sorted_stably(o.insert(j, x), less),
{
    let r = o.insert(j, x);
    assert forall|q: int| j <= q < o.len() implies less(x, #[trigger] o[q]) by {
        if q > j {
            let a = o[j];
            let b = o[q];
            assert(!less(b, a) && (less(a, b) || a < b));
            if !less(a, b) {
                if !less(x, b) {
                    if less(b, x) {
                        assert(less(b, a));
                    }
                    assert(!less(x, a));
                }
            }
        }
    }
    assert forall|p: int, q: int| 0 <= p < q < r.len() implies !less(#[trigger] r[q], #[trigger] r[p]) && (less(
        r[p],
        r[q],
    ) || r[p] < r[q]) by {
        if q < j {
            assert(r[p] == o[p] && r[q] == o[q]);
        } else if q == j {
            assert(r[q] == x && r[p] == o[p]);
        } else if p < j {
            assert(r[p] == o[p] && r[q] == o[q - 1]);
        } else if p == j {
            assert(r[p] == x && r[q] == o[q - 1]);
            if less(o[q - 1], x) {
                assert(less(o[q - 1], o[q - 1]));
            }
        } else {
            assert(r[p] == o[p - 1] && r[q] == o[q - 1]);
        }
    }
}

proof fn lemma_insert_members(s: Seq<int>, o: Seq<int>, j: int)
    requires
        s.len() > 0,
        o.len() == s.len() - 1,
        0 <= j <= o.len(),
        forall|i: int| 0 <= i < s.len() - 1 ==> o.contains(#[trigger] s[i]),
        forall|i: int| 0 <= i < o.len() ==> s.drop_last().contains(#[trigger] o[i]),
    ensures
        forall|i: int| 0 <= i < s.len() ==> o.insert(j, s.last()).contains(#[trigger] s[i]),
        forall|i: int| 0 <= i < s.len() ==> s.contains(#[trigger] o.insert(j, s.last())[i]),
{
    let t = s.drop_last();
    let x = s.last();
    let r = o.insert(j, x);
    assert forall|i: int| 0 <= i < s.len() implies r.contains(#[trigger] s[i]) by {
        if i < t.len() {
            assert(o.contains(s[i]));
            let k = choose|k: int| 0 <= k < o.len() && o[k] == s[i];
            if k < j {
                assert(r[k] == o[k]);
            } else {
                assert(r[k + 1] == o[k]);
            }
        } else {
            assert(r[j] == x);
        }
    }
    assert forall|i: int| 0 <= i < s.len() implies s.contains(#[trigger] r[i]) by {
        if i == j {
            assert(s[s.len() - 1] == x);
        } else {
            let oi = if i < j { i } else { i - 1 };
            assert(r[i] == o[oi]);
            assert(t.contains(o[oi]));
            let k = choose|k: int| 0 <= k < t.len() && t[k] == o[oi];
            assert(s[k] == t[k]);
        }
    }
}

/// A stable sort by a strict weak order puts its elements in ascending
/// order, with elements in neither order kept in the order they came in (for
/// an ascending list of indices), and keeps exactly the elements it was
/// given.
pub proof fn law_stable_sort_orders(s: Seq<int>, less: spec_fn(int, int) -> bool)
    requires
        strict_weak_order(less),
        forall|i: int, j: int| 0 <= i < j < s.len() ==> #[trigger] s[i] < #[trigger] s[j],
    ensures
        stable_sort(s, less).len() == s.len(),
        sorted_stably(stable_sort(s, less), less),
        forall|i: int| 0 <= i < s.len() ==> stable_sort(s, less).contains(#[trigger] s[i]),
        forall|i: int| 0 <= i < s.len() ==> s.contains(#[trigger] stable_sort(s, less)[i]),
    decreases s.len(),
{
    if s.len() > 0 {
        let t = s.drop_last();
        let x = s.last();
        assert forall|i: int, j: int| 0 <= i < j < t.len() implies #[trigger] t[i] < #[trigger] t[j] by {
            assert(t[i] == s[i] && t[j] == s[j]);
        }
        law_stable_sort_orders(t, less);
        let o = stable_sort(t, less);
        lemma_insert_pos(o, x, less);
        let j = insert_pos(o, x, less) as int;
        assert(stable_sort(s, less) == o.insert(j, x));
        assert forall|q: int| 0 <= q < o.len() implies #[trigger] o[q] < x by {
            assert(t.contains(o[q]));
            let k = choose|k: int| 0 <= k < t.len() && t[k] == o[q];
            assert(s[k] < s[s.len() - 1]);
        }
        lemma_insert_sorted(o, x, less, j);
        assert forall|i: int| 0 <= i < s.len() - 1 implies o.contains(#[trigger] s[i]) by {
            assert(t[i] == s[i]);
        }
        lemma_insert_members(s, o, j);
    }
}

/// Album lists are sorted by a strict weak order, whatever the key.
pub proof fn lemma_album_less_orders(al: Seq<LibraryAlbum>, key: AlbumKey)
    ensures
        strict_weak_order(album_less(al, key)),
{
    let less = album_less(al, key);
    assert forall|a: int| !#[trigger] less(a, a) by {
        lemma_lex_irreflexive(al[a].title@);
        lemma_lex_irreflexive(al[a].artist@);
    }
    assert forall|a: int, b: int, c: int| #[trigger] less(a, b) && #[trigger] less(b, c) implies less(a, c) by {
        if key == AlbumKey::Title {
            lemma_lex_transitive(al[a].title@, al[b].title@, al[c].title@);
        } else if key == AlbumKey::Artist {
            lemma_lex_transitive(al[a].artist@, al[b].artist@, al[c].artist@);
        }
    }
    assert forall|a: int, b: int, c: int|
        !#[trigger] less(a, b) && !less(b, a) && !#[trigger] less(b, c) && !less(c, b) implies !less(a, c) && !less(
        c,
        a,
    ) by {
        if key == AlbumKey::Title {
            lemma_lex_total(al[a].title@, al[b].title@);
            lemma_lex_total(al[b].title@, al[c].title@);
            lemma_lex_irreflexive(al[a].title@);
        } else if key == AlbumKey::Artist {
            lemma_lex_total(al[a].artist@, al[b].artist@);
            lemma_lex_total(al[b].artist@, al[c].artist@);
            lemma_lex_irreflexive(al[a].artist@);
        }
    }
}

/// A vector of indices as integers.
pub open spec fn ints(v: Seq<usize>) -> Seq<int> {
    v.map_values(|x: usize| x as int)
}

/// What an album list is sorted by.
#[derive(Debug, Clone, Copy, PartialEq, Eq, Structural)]
pub enum AlbumKey {
    Title,
    Artist,
    YearUp,
    YearDown,
}

/// Album `a` comes before album `b` by `key`: titles and artists in
/// code-point order, years ascending or descending.
pub open spec fn album_less(al: Seq<LibraryAlbum>, key: AlbumKey) -> spec_fn(int, int) -> bool {
    |a: int, b: int|
        match key {
            AlbumKey::Title => lex_lt(al[a].title@, al[b].title@),
            AlbumKey::Artist => lex_lt(al[a].artist@, al[b].artist@),
            AlbumKey::YearUp => al[a].year < al[b].year,
            AlbumKey::YearDown => al[a].year > al[b].year,
        }
}

fn album_before(albums: &Vec<LibraryAlbum>, a: usize, b: usize, key: AlbumKey) -> (res: bool)
    requires
        a < albums@.len(),
        b < albums@.len(),
    ensures
        res == album_less(albums@, key)(a as int, b as int),
{
    match key {
        AlbumKey::Title => lex_less(&chars_of(albums[a].title.as_str()), &chars_of(albums[b].title.as_str())),
        AlbumKey::Artist => lex_less(&chars_of(albums[a].artist.as_str()), &chars_of(albums[b].artist.as_str())),
        AlbumKey::YearUp => albums[a].year < albums[b].year,
        AlbumKey::YearDown => albums[a].year > albums[b].year,
    }
}

proof fn lemma_insert_stable_at(o: Seq<int>, x: int, less: spec_fn(int, int) -> bool, j: int)
    requires
        0 <= j <= o.len(),
        forall|q: int| 0 <= q < j ==> !less(x, #[trigger] o[q]),
        j < o.len() ==> less(x, o[j]),
    ensures
        insert_stable(o, x, less) == o.insert(j, x),
    decreases j,
{
    if j == 0 {
        if o.len() == 0 {
            assert(o.insert(0, x) =~= seq![x]);
        } else {
            assert(o.insert(0, x) =~= seq![x] + o);
        }
    } else {
        let t = o.drop_first();
        assert forall|q: int| 0 <= q < j - 1 implies !less(x, #[trigger] t[q]) by {
            assert(t[q] == o[q + 1]);
        }
        lemma_insert_stable_at(t, x, less, j - 1);
        assert(!less(x, o[0]));
        assert(o.insert(j, x) =~= seq![o[0]] + t.insert(j - 1, x));
    }
}

/// The albums at the indices `s`, sorted stably by `key`.
fn sort_albums(albums: &Vec<LibraryAlbum>, s: &Vec<usize>, key: AlbumKey) -> (res: Vec<usize>)
    requires
        forall|k: int| 0 <= k < s@.len() ==> #[trigger] s@[k] < albums@.len(),
    ensures
        ints(res@) == stable_sort(ints(s@), album_less(albums@, key)),
        forall|k: int| 0 <= k < res@.len() ==> #[trigger] res@[k] < albums@.len(),
{
    let ghost less = album_less(albums@, key);
    let ghost sv = ints(s@);
    let mut out: Vec<usize> = Vec::new();
    let mut i: usize = 0;
    while i < s.len()
        invariant
            i <= s@.len(),
            sv == ints(s@),
            less == album_less(albums@, key),
            forall|k: int| 0 <= k < s@.len() ==> #[trigger] s@[k] < albums@.len(),
            ints(out@) == stable_sort(sv.take(i as int), less),
            forall|k: int| 0 <= k < out@.len() ==> #[trigger] out@[k] < albums@.len(),
        decreases s@.len() - i,
    {
        let x = s[i];
        let mut j: usize = 0;
        while j < out.len() && !album_before(albums, x, out[j], key)
            invariant
                j <= out@.len(),
                x < albums@.len(),
                less == album_less(albums@, key),
                forall|k: int| 0 <= k < out@.len() ==> #[trigger] out@[k] < albums@.len(),
                forall|q: int| 0 <= q < j ==> !less(x as int, #[trigger] ints(out@)[q]),
            decreases out@.len() - j,
        {
            j += 1;
        }
        let ghost ov = ints(out@);
        proof {
            lemma_insert_stable_at(ov, x as int, less, j as int);
            assert(sv.take(i + 1).drop_last() =~= sv.take(i as int));
            assert(sv.take(i + 1).last() == x as int);
        }
        let ghost before = out@;
        out.insert(j, x);
        assert(ints(out@) =~= ov.insert(j as int, x as int));
        assert forall|k: int| 0 <= k < out@.len() implies #[trigger] out@[k] < albums@.len() by {
            if k < j {
                assert(out@[k] == before[k]);
            } else if k > j {
                assert(out@[k] == before[k - 1]);
            }
        }
        i += 1;
    }
    assert(sv.take(s@.len() as int) =~= sv);
    out
}

fn page_of(s: &Vec<usize>, offset: usize, size: usize) -> (res: Vec<usize>)
    ensures
        ints(res@) == page(ints(s@), offset as int, size as int),
{
    let from = if offset < s.len() { offset } else { s.len() };
    let rest_len = s.len() - from;
    let n = if size < rest_len { size } else { rest_len };
    let ghost want = page(ints(s@), offset as int, size as int);
    let mut out: Vec<usize> = Vec::new();
    let mut k: usize = 0;
    while k < n
        invariant
            k <= n,
            from + n <= s@.len(),
            s@.len() <= usize::MAX,
            want.len() == n,
            forall|q: int| 0 <= q < n ==> #[trigger] want[q] == s@[from + q] as int,
            ints(out@) == want.take(k as int),
        decreases n - k,
    {
        assert(from + k < s@.len());
        let ghost before = ints(out@);
        let v = s[from + k];
        out.push(v);
        assert(ints(out@) =~= before.push(v as int));
        assert(want.take(k + 1) =~= want.take(k as int).push(want[k as int]));
        k += 1;
    }
    assert(want.take(n as int) =~= want);
    out
}

// ── Album lists ─────────────────────────────────────────────────────────────

/// The list type asked for, `alphabeticalByName` by default.
pub open spec fn list_type_of(t: Option<&str>) -> Seq<char> {
    match t {
        Some(s) => s@,
        None => "alphabeticalByName"@,
    }
}

/// A year bound given as a number, or `default`, cut to 32 bits as the
/// server reads it.
pub open spec fn year_bound(y: Option<i64>, default: i64) -> u32 {
    (match y {
        Some(v) => v,
        None => default,
    }) as u32
}

/// The albums from year `lo` to year `hi`.
pub open spec fn in_years(al: Seq<LibraryAlbum>, lo: u32, hi: u32) -> spec_fn(int) -> bool {
    |k: int| lo <= al[k].year && al[k].year <= hi
}

/// The albums an `getAlbumList2` request lists, by index, in order:
/// `newest` in reverse; `alphabeticalByName` and `alphabeticalByArtist`
/// stably sorted by title or artist; `byYear` those from the lower to the
/// higher of the two years, ascending when `fromYear` is not above `toYear`
/// and descending otherwise; `starred` the favourite albums; any other type
/// (`random` among them, for which the albums come shuffled) as given.
pub open spec fn album_list_order(
    al: Seq<LibraryAlbum>,
    list_type: Seq<char>,
    from_year: Option<i64>,
    to_year: Option<i64>,
    starred: Seq<Seq<char>>,
) -> Seq<int> {
    let n = al.len();
    if list_type == "newest"@ {
        Seq::new(n, |k: int| n - 1 - k)
    } else if list_type == "alphabeticalByName"@ {
        stable_sort(upto(n), album_less(al, AlbumKey::Title))
    } else if list_type == "alphabeticalByArtist"@ {
        stable_sort(upto(n), album_less(al, AlbumKey::Artist))
    } else if list_type == "byYear"@ {
        let from = year_bound(from_year, 0);
        let to = year_bound(to_year, 4294967295);
        let lo = if from <= to { from } else { to };
        let hi = if from <= to { to } else { from };
        stable_sort(
            indices_where(n, in_years(al, lo, hi)),
            album_less(al, if from <= to { AlbumKey::YearUp } else { AlbumKey::YearDown }),
        )
    } else if list_type == "starred"@ {
        indices_where(n, |k: int| starred.contains(al[k].id@))
    } else {
        upto(n)
    }
}

proof fn lemma_indices_where(n: nat, p: spec_fn(int) -> bool)
    ensures
        forall|i: int, j: int|
            0 <= i < j < indices_where(n, p).len() ==> #[trigger] indices_where(n, p)[i] < #[trigger] indices_where(n, p)[j],
        forall|i: int|
            0 <= i < indices_where(n, p).len() ==> 0 <= #[trigger] indices_where(n, p)[i] < n && p(indices_where(n, p)[i]),
    decreases n,
{
    if n > 0 {
        lemma_indices_where((n - 1) as nat, p);
        let t = indices_where((n - 1) as nat, p);
        if p(n - 1) {
            let r = t.push(n - 1);
            assert forall|i: int, j: int| 0 <= i < j < r.len() implies #[trigger] r[i] < #[trigger] r[j] by {
                assert(r[i] == t[i]);
                if j < t.len() {
                    assert(r[j] == t[j]);
                }
            }
            assert forall|i: int| 0 <= i < r.len() implies 0 <= #[trigger] r[i] < n && p(r[i]) by {
                if i < t.len() {
                    assert(r[i] == t[i]);
                }
            }
        }
    }
}

/// The sorted album lists are in ascending order of their key, albums of
/// equal key in library order, each album at most once: by title, by
/// artist, and by year (ascending, or descending when `fromYear` is above
/// `toYear`), where every album listed lies between the two years.
pub proof fn law_album_lists_sorted(
    al: Seq<LibraryAlbum>,
    list_type: Seq<char>,
    from_year: Option<i64>,
    to_year: Option<i64>,
    starred: Seq<Seq<char>>,
)
    ensures
        ({
            let o = album_list_order(al, list_type, from_year, to_year, starred);
            let from = year_bound(from_year, 0);
            let to = year_bound(to_year, 4294967295);
            &&& list_type == "alphabeticalByName"@ ==> sorted_stably(o, album_less(al, AlbumKey::Title))
                && o.len() == al.len()
            &&& list_type == "alphabeticalByArtist"@ ==> sorted_stably(o, album_less(al, AlbumKey::Artist))
                && o.len() == al.len()
            &&& list_type == "byYear"@ ==> {
                &&& sorted_stably(
                    o,
                    album_less(al, if from <= to { AlbumKey::YearUp } else { AlbumKey::YearDown }),
                )
                &&& forall|i: int|
                    0 <= i < o.len() ==> {
                        let y = al[#[trigger] o[i]].year;
                        (from <= y && y <= to) || (to <= y && y <= from)
                    }
            }
        }),
{
    reveal_strlit("newest");
    reveal_strlit("alphabeticalByName");
    reveal_strlit("alphabeticalByArtist");
    reveal_strlit("byYear");
    assert("newest"@[0] != "alphabeticalByName"@[0]);
    assert("newest"@[0] != "byYear"@[0]);
    assert("alphabeticalByName"@[0] != "byYear"@[0]);
    assert("alphabeticalByName"@.len() != "alphabeticalByArtist"@.len());
    let n = al.len();
    let o = album_list_order(al, list_type, from_year, to_year, starred);
    if list_type == "alphabeticalByName"@ || list_type == "alphabeticalByArtist"@ {
        let key = if list_type == "alphabeticalByName"@ { AlbumKey::Title } else { AlbumKey::Artist };
        lemma_album_less_orders(al, key);
        law_stable_sort_orders(upto(n), album_less(al, key));
    } else if list_type == "byYear"@ {
        let from = year_bound(from_year, 0);
        let to = year_bound(to_year, 4294967295);
        let lo = if from <= to { from } else { to };
        let hi = if from <= to { to } else { from };
        let p = in_years(al, lo, hi);
        let key = if from <= to { AlbumKey::YearUp } else { AlbumKey::YearDown };
        let kept = indices_where(n, p);
        lemma_indices_where(n, p);
        lemma_album_less_orders(al, key);
        law_stable_sort_orders(kept, album_less(al, key));
        assert(o == stable_sort(kept, album_less(al, key)));
        assert forall|i: int| 0 <= i < o.len() implies {
            let y = al[#[trigger] o[i]].year;
            (from <= y && y <= to) || (to <= y && y <= from)
        } by {
            assert(kept.contains(o[i]));
            let k = choose|k: int| 0 <= k < kept.len() && kept[k] == o[i];
            assert(p(kept[k]));
        }
    }
}

fn all_indices(n: usize) -> (res: Vec<usize>)
    ensures
        ints(res@) == upto(n as nat),
        forall|k: int| 0 <= k < res@.len() ==> #[trigger] res@[k] < n,
{
    let mut out: Vec<usize> = Vec::new();
    let mut k: usize = 0;
    while k < n
        invariant
            k <= n,
            ints(out@) == upto(k as nat),
            forall|q: int| 0 <= q < out@.len() ==> #[trigger] out@[q] < n,
        decreases n - k,
    {
        let ghost before = ints(out@);
        out.push(k);
        assert(ints(out@) =~= before.push(k as int));
        assert(upto((k + 1) as nat) =~= upto(k as nat).push(k as int));
        k += 1;
    }
    out
}

fn year_indices(albums: &Vec<LibraryAlbum>, lo: u32, hi: u32) -> (res: Vec<usize>)
    ensures
        ints(res@) == indices_where(albums@.len(), in_years(albums@, lo, hi)),
        forall|k: int| 0 <= k < res@.len() ==> #[trigger] res@[k] < albums@.len(),
{
    let ghost p = in_years(albums@, lo, hi);
    let mut out: Vec<usize> = Vec::new();
    let mut k: usize = 0;
    while k < albums.len()
        invariant
            k <= albums@.len(),
            p == in_years(albums@, lo, hi),
            ints(out@) == indices_where(k as nat, p),
            forall|q: int| 0 <= q < out@.len() ==> #[trigger] out@[q] < albums@.len(),
        decreases albums@.len() - k,
    {
        if lo <= albums[k].year && albums[k].year <= hi {
            let ghost before = ints(out@);
            out.push(k);
            assert(ints(out@) =~= before.push(k as int));
        }
        k += 1;
    }
    out
}

fn is_starred(starred: &Vec<String>, id: &str) -> (res: bool)
    ensures
        res == strings_view(starred@).contains(id@),
{
    let idc = chars_of(id);
    let mut k: usize = 0;
    while k < starred.len()
        invariant
            k <= starred@.len(),
            idc@ == id@,
            forall|q: int| 0 <= q < k ==> starred@[q]@ != id@,
        decreases starred@.len() - k,
    {
        if chars_eq(&chars_of(starred[k].as_str()), &idc) {
            assert(strings_view(starred@)[k as int] == id@);
            return true;
        }
        k += 1;
    }
    assert forall|q: int| 0 <= q < strings_view(starred@).len() implies strings_view(starred@)[q] != id@ by {
        assert(strings_view(starred@)[q] == starred@[q]@);
    }
    false
}

fn starred_indices(albums: &Vec<LibraryAlbum>, starred: &Vec<String>) -> (res: Vec<usize>)
    ensures
        ints(res@) == indices_where(albums@.len(), |k: int| strings_view(starred@).contains(albums@[k].id@)),
{
    let ghost p = |k: int| strings_view(starred@).contains(albums@[k].id@);
    let mut out: Vec<usize> = Vec::new();
    let mut k: usize = 0;
    while k < albums.len()
        invariant
            k <= albums@.len(),
            p == (|k: int| strings_view(starred@).contains(albums@[k].id@)),
            ints(out@) == indices_where(k as nat, p),
        decreases albums@.len() - k,
    {
        if is_starred(starred, albums[k].id.as_str()) {
            let ghost before = ints(out@);
            out.push(k);
            assert(ints(out@) =~= before.push(k as int));
        }
        k += 1;
    }
    out
}

fn is_type(t: &Vec<char>, name: &str) -> (res: bool)
    ensures
        res == (t@ == name@),
{
    chars_eq(t, &chars_of(name))
}

/// The page of albums a `getAlbumList2` request answers with, as indices
/// into `albums`: [`album_list_order`] from `offset` (0 by default) on, at
/// most `size` (10 by default) of them, both read as the server casts them.
/// For `random` the caller passes the albums already shuffled.
pub fn album_list2_page(
    albums: &Vec<LibraryAlbum>,
    list_type: Option<&str>,
    size: Option<i64>,
    offset: Option<i64>,
    from_year: Option<i64>,
    to_year: Option<i64>,
    starred: &Vec<String>,
) -> (res: Vec<usize>)
    ensures
        ints(res@) == page(
            album_list_order(albums@, list_type_of(list_type), from_year, to_year, strings_view(starred@)),
            (match offset {
                Some(o) => o,
                None => 0,
            }) as usize as int,
            (match size {
                Some(s) => s,
                None => 10,
            }) as usize as int,
        ),
{
    let t = match list_type {
        Some(s) => chars_of(s),
        None => chars_of("alphabeticalByName"),
    };
    let n = albums.len();
    let ghost al = albums@;
    let ghost want = album_list_order(al, list_type_of(list_type), from_year, to_year, strings_view(starred@));
    proof {
        reveal_strlit("alphabeticalByName");
    }
    let order: Vec<usize> = if is_type(&t, "newest") {
        let mut out: Vec<usize> = Vec::new();
        let mut k: usize = 0;
        while k < n
            invariant
                k <= n,
                n == al.len(),
                ints(out@) == Seq::new(n as nat, |q: int| n - 1 - q).take(k as int),
            decreases n - k,
        {
            let ghost before = ints(out@);
            out.push(n - 1 - k);
            assert(ints(out@) =~= before.push(n - 1 - k));
            assert(Seq::new(n as nat, |q: int| n - 1 - q).take(k + 1) =~= Seq::new(n as nat, |q: int| n - 1 - q).take(k as int).push(n - 1 - k));
            k += 1;
        }
        assert(Seq::new(n as nat, |q: int| n - 1 - q).take(n as int) =~= Seq::new(n as nat, |q: int| n - 1 - q));
        out
    } else if is_type(&t, "alphabeticalByName") {
        sort_albums(albums, &all_indices(n), AlbumKey::Title)
    } else if is_type(&t, "alphabeticalByArtist") {
        sort_albums(albums, &all_indices(n), AlbumKey::Artist)
    } else if is_type(&t, "byYear") {
        let from: u32 = match from_year {
            Some(v) => v as u32,
            None => 0,
        };
        let to: u32 = match to_year {
            Some(v) => v as u32,
            None => 4294967295,
        };
        let lo = if from <= to { from } else { to };
        let hi = if from <= to { to } else { from };
        let kept = year_indices(albums, lo, hi);
        sort_albums(albums, &kept, if from <= to { AlbumKey::YearUp } else { AlbumKey::YearDown })
    } else if is_type(&t, "starred") {
        starred_indices(albums, starred)
    } else {
        all_indices(n)
    };
    assert(ints(order@) == want);
    let off: usize = match offset {
        Some(o) => o as usize,
        None => 0,
    };
    let sz: usize = match size {
        Some(s) => s as usize,
        None => 10,
    };
    page_of(&order, off, sz)
}

// ── Searches ────────────────────────────────────────────────────────────────

/// An entry with the texts `fields` matches the lower-cased `term`: the
/// term is empty, or one of the texts, lower-cased, contains it.
pub open spec fn search_matches(fields: Seq<Seq<char>>, term: Seq<char>) -> bool {
    term.len() == 0 || exists|f: int| 0 <= f < fields.len() && find_sub(unicode_lower(#[trigger] fields[f]), term) is Some
}

/// The search term of a query: the query text, or the empty text, lower-cased.
pub open spec fn search_term(query: Option<&str>) -> Seq<char> {
    unicode_lower(
        match query {
            Some(q) => q@,
            None => Seq::<char>::empty(),
        },
    )
}

fn entry_matches(fields: &Vec<String>, term: &Vec<char>) -> (res: bool)
    ensures
        res == search_matches(strings_view(fields@), term@),
{
    if term.len() == 0 {
        return true;
    }
    let mut f: usize = 0;
    while f < fields.len()
        invariant
            f <= fields@.len(),
            forall|q: int| 0 <= q < f ==> find_sub(unicode_lower(#[trigger] strings_view(fields@)[q]), term@) is None,
        decreases fields@.len() - f,
    {
        let low = chars_of(to_lowercase(fields[f].as_str()).as_str());
        assert(strings_view(fields@)[f as int] == fields@[f as int]@);
        if find_sub_exec(&low, term).is_some() {
            return true;
        }
        f += 1;
    }
    false
}

/// The page of entries a `search3` request answers with for one kind of
/// entry (artists, albums or songs), each given by the texts searched in
/// it: the indices of the entries that match [`search_term`], from
/// `offset` (0 by default) on, at most `count` (20 by default) of them.
pub fn search_page(entries: &Vec<Vec<String>>, query: Option<&str>, count: Option<i64>, offset: Option<i64>) -> (res: Vec<usize>)
    ensures
        ints(res@) == page(
            indices_where(entries@.len(), |k: int| search_matches(strings_view(entries@[k]@), search_term(query))),
            (match offset {
                Some(o) => o,
                None => 0,
            }) as usize as int,
            (match count {
                Some(c) => c,
                None => 20,
            }) as usize as int,
        ),
{
    let q: &str = match query {
        Some(s) => s,
        None => "",
    };
    proof {
        reveal_strlit("");
        if query is None {
            assert(q@ =~= Seq::<char>::empty());
        }
    }
    let term = chars_of(to_lowercase(q).as_str());
    let ghost p = |k: int| search_matches(strings_view(entries@[k]@), search_term(query));
    let mut hits: Vec<usize> = Vec::new();
    let mut k: usize = 0;
    while k < entries.len()
        invariant
            k <= entries@.len(),
            term@ == search_term(query),
            p == (|k: int| search_matches(strings_view(entries@[k]@), search_term(query))),
            ints(hits@) == indices_where(k as nat, p),
        decreases entries@.len() - k,
    {
        if entry_matches(&entries[k], &term) {
            let ghost before = ints(hits@);
            hits.push(k);
            assert(ints(hits@) =~= before.push(k as int));
        }
        k += 1;
    }
    let off: usize = match offset {
        Some(o) => o as usize,
        None => 0,
    };
    let n: usize = match count {
        Some(c) => c as usize,
        None => 20,
    };
    page_of(&hits, off, n)
}

} // verus!

use super::config::NetworkConfig;
use super::png::ImagePng;
use super::Position;
use vstd::prelude::*;
use vstd::string::StringExecFns;

verus! {

/// Whether an image came out of the cache, without a request to the tile server.
#[derive(Debug, Clone, Copy, PartialEq, Eq, Structural)]
pub struct IsCached(pub bool);

/// The longest life that the cache accepts for its entries, in seconds: a thousand years.
pub const MAX_CACHE_LIFE_SECS: u64 = 31_536_000_000;

#[verifier::external_type_specification]
#[verifier::external_body]
#[verifier::reject_recursive_types(K)]
#[verifier::reject_recursive_types(V)]
#[verifier::reject_recursive_types(S)]
pub struct ExCache<K, V, S>(moka::sync::Cache<K, V, S>);

/// The cache of the crate `moka` that holds the bytes of tiles. A key is made of the number
/// of the sweep in which the tile was stored and of the place `(x, y)` of the tile.
pub type TileStore = moka::sync::Cache<(u64, usize, usize), Vec<u8>>;

/// The pairs of key and bytes that were last handed to `insert` and that the mark of the
/// last `invalidate_all` does not bar. The cache may have dropped any of them since: they are
/// what a lookup can still find, not what it must find.
pub uninterp spec fn cache_entries(cache: TileStore) -> Map<(u64, usize, usize), Seq<u8>>;

/// What the cache was made with: the number of entries that it holds at most, and the life
/// of an entry in seconds.
pub uninterp spec fn cache_limits(cache: TileStore) -> (u64, u64);

/// The entries of a cache that holds nothing.
pub open spec fn no_entries() -> Map<(u64, usize, usize), Seq<u8>> {
    Map::empty()
}

/// Every entry of `after` is an entry of `before`: nothing was added and nothing changed.
pub open spec fn kept_from(
    after: Map<(u64, usize, usize), Seq<u8>>,
    before: Map<(u64, usize, usize), Seq<u8>>,
) -> bool {
    forall|key: (u64, usize, usize)| #[trigger]
        after.contains_key(key) ==> before.contains_key(key) && after[key] == before[key]
}

/// `moka::sync::CacheBuilder::build`, after `new` with the capacity, `time_to_live` and
/// `time_to_idle`. A new cache holds nothing and keeps the limits that it was made with.
/// `build` refuses a life of more than a thousand years, which `requires` leaves out.
#[verifier::external_body]
fn cache_build(capacity: u64, life_secs: u64) -> (cache: TileStore)
    requires
        life_secs <= MAX_CACHE_LIFE_SECS,
    ensures
        cache_entries(cache) == no_entries(),
        cache_limits(cache) == (capacity, life_secs),
{
    moka::sync::CacheBuilder::new(capacity)
        .time_to_live(std::time::Duration::from_secs(life_secs))
        .time_to_idle(std::time::Duration::from_secs(life_secs))
        .build()
}

/// `moka::sync::Cache::get`. What it finds under a key is what was last put there. That it
/// finds what was put there is not claimed: the entry may have expired or have been evicted.
#[verifier::external_body]
fn cache_get(cache: &TileStore, sweep: u64, x: usize, y: usize) -> (found: Option<Vec<u8>>)
    ensures
        found matches Some(bytes) ==> cache_entries(*cache).contains_key((sweep, x, y))
            && cache_entries(*cache)[(sweep, x, y)] == bytes@,
{
    cache.get(&(sweep, x, y))
}

/// `moka::sync::Cache::insert`: puts the bytes under the key, in place of what was there. The
/// limits of the cache stay as they are. The call does not unwind: it gives up only where the
/// channel to the cache's own upkeep is closed, and the cache holds both ends of it.
#[verifier::external_body]
fn cache_insert(cache: &mut TileStore, sweep: u64, x: usize, y: usize, bytes: Vec<u8>)
    ensures
        cache_entries(*final(cache)) == cache_entries(*old(cache)).insert((sweep, x, y), bytes@),
        cache_limits(*final(cache)) == cache_limits(*old(cache)),
    no_unwind
{
    cache.insert((sweep, x, y), bytes)
}

/// `moka::sync::Cache::invalidate_all`: it sets a mark that bars what was put into the cache
/// before the mark. What was put in at the very reading of the clock at which the mark is set
/// is not barred, so all that is claimed is that nothing is added and nothing changed. The
/// limits of the cache stay as they are. The call reads the clock and sets the mark: it does
/// not unwind.
#[verifier::external_body]
fn cache_invalidate_all(cache: &mut TileStore)
    ensures
        kept_from(cache_entries(*final(cache)), cache_entries(*old(cache))),
        cache_limits(*final(cache)) == cache_limits(*old(cache)),
    no_unwind
{
    cache.invalidate_all()
}

/// The digit `d`, for `d` below ten.
pub open spec fn spec_digit(d: nat) -> char {
    if d == 0 {
        '0'
    } else if d == 1 {
        '1'
    } else if d == 2 {
        '2'
    } else if d == 3 {
        '3'
    } else if d == 4 {
        '4'
    } else if d == 5 {
        '5'
    } else if d == 6 {
        '6'
    } else if d == 7 {
        '7'
    } else if d == 8 {
        '8'
    } else {
        '9'
    }
}

/// The number `n` in decimal digits, without leading zeros.
pub open spec fn spec_decimal(n: nat) -> Seq<char>
    decreases n,
{
    if n < 10 {
        seq![spec_digit(n)]
    } else {
        spec_decimal(n / 10).push(spec_digit(n % 10))
    }
}

fn digit_str(d: usize) -> (s: &'static str)
    requires
        d < 10,
    ensures
        s@ == seq![spec_digit(d as nat)],
{
    proof {
        reveal_strlit("0");
        reveal_strlit("1");
        reveal_strlit("2");
        reveal_strlit("3");
        reveal_strlit("4");
        reveal_strlit("5");
        reveal_strlit("6");
        reveal_strlit("7");
        reveal_strlit("8");
        reveal_strlit("9");
    }
    let s = if d == 0 {
        "0"
    } else if d == 1 {
        "1"
    } else if d == 2 {
        "2"
    } else if d == 3 {
        "3"
    } else if d == 4 {
        "4"
    } else if d == 5 {
        "5"
    } else if d == 6 {
        "6"
    } else if d == 7 {
        "7"
    } else if d == 8 {
        "8"
    } else {
        "9"
    };
    assert(s@ =~= seq![spec_digit(d as nat)]);
    s
}

/// Writes `n` in decimal digits at the end of `text`.
fn append_decimal(text: &mut String, n: usize)
    ensures
        final(text)@ == old(text)@ + spec_decimal(n as nat),
    decreases n,
{
    if n >= 10 {
        append_decimal(text, n / 10);
    }
    text.append(digit_str(n % 10));
    assert(text@ =~= old(text)@ + spec_decimal(n as nat));
}

/// The address of the tile at `pos` on the tile server.
pub open spec fn spec_tile_url(pos: Position) -> Seq<char> {
    "https://backend.wplace.live/files/s0/tiles/"@ + spec_decimal(pos.x as nat) + "/"@
        + spec_decimal(pos.y as nat) + ".png"@
}

/// The address of the tile at `pos` on the tile server.
pub fn tile_url(pos: Position) -> (url: String)
    ensures
        url@ == spec_tile_url(pos),
{
    let mut url = String::from_str("https://backend.wplace.live/files/s0/tiles/");
    append_decimal(&mut url, pos.x);
    url.append("/");
    append_decimal(&mut url, pos.y);
    url.append(".png");
    url
}

/// What a fetch begins with.
#[derive(Debug, Clone, PartialEq, Eq)]
pub enum FetchStep {
    /// The tile is in the cache: nothing is asked of the tile server.
    Cached(ImagePng),
    /// The tile is not in the cache: it is to be requested at `url`, after a pause of
    /// `delay_secs` seconds.
    Request { delay_secs: u64, url: String },
}

/// `step` is a way in which the fetch of the tile at `pos` may begin where the cache can find
/// the tiles `entries` and pauses for `delay` seconds before a request: with a tile that is
/// among `entries`, or with the request for the tile.
pub open spec fn spec_may_begin(
    entries: Map<Position, Seq<u8>>,
    delay: u64,
    pos: Position,
    step: FetchStep,
) -> bool {
    match step {
        FetchStep::Cached(img) => entries.contains_key(pos) && entries[pos] == img@,
        FetchStep::Request { delay_secs, url } => delay_secs == delay && url@ == spec_tile_url(pos),
    }
}

/// The first fetch of a tile in a sweep asks the tile server for it. A later fetch in the
/// same sweep that finds the tile in the cache hands out the bytes that came from the tile
/// server, and asks for nothing. Once the cache has been emptied, the next fetch of the tile
/// asks the tile server again.
pub proof fn lemma_cache_within_sweep(
    entries: Map<Position, Seq<u8>>,
    delay: u64,
    pos: Position,
    bytes: Seq<u8>,
    first: FetchStep,
    second: FetchStep,
    third: FetchStep,
)
    requires
        !entries.contains_key(pos),
        spec_may_begin(entries, delay, pos, first),
        spec_may_begin(entries.insert(pos, bytes), delay, pos, second),
        spec_may_begin(Map::empty(), delay, pos, third),
    ensures
        first is Request,
        second matches FetchStep::Cached(img) ==> img@ == bytes,
        third is Request,
{
}

/// What a fetch begins with, given what the lookup in the cache has found: the tile that
/// was found, or else the request for the tile at `pos` after a pause of `delay_secs` seconds.
pub fn fetch_step(found: Option<Vec<u8>>, delay_secs: u64, pos: Position) -> (step: FetchStep)
    ensures
        match found {
            Some(bytes) => step matches FetchStep::Cached(img) && img@ == bytes@,
            None => step matches FetchStep::Request { delay_secs: pause, url } && pause
                == delay_secs && url@ == spec_tile_url(pos),
        },
{
    match found {
        Some(bytes) => FetchStep::Cached(ImagePng::new(bytes)),
        None => FetchStep::Request { delay_secs, url: tile_url(pos) },
    }
}

/// The tiles that were fetched during a sweep, so that no tile is requested twice in one
/// sweep. Entries leave the cache after a set time, and when it is full.
///
/// The sweeps are numbered, and a tile is stored under the number of its sweep: a lookup
/// never finds what an earlier sweep has stored.
pub struct TileCache {
    cache: TileStore,
    sweep: u64,
    capacity: u64,
    life_secs: u64,
    delay_secs: u64,
}

impl View for TileCache {
    type V = Map<Position, Seq<u8>>;

    /// The tiles that a lookup can find: those that were stored in this sweep.
    closed spec fn view(&self) -> Map<Position, Seq<u8>> {
        Map::new(
            |p: Position| cache_entries(self.cache).contains_key((self.sweep, p.x, p.y)),
            |p: Position| cache_entries(self.cache)[(self.sweep, p.x, p.y)],
        )
    }
}

impl TileCache {
    /// Nothing is stored under the number of a sweep that is yet to come, and the cache has
    /// the limits that the settings gave.
    #[verifier::type_invariant]
    pub closed spec fn inv(&self) -> bool {
        &&& forall|key: (u64, usize, usize)| #[trigger]
            cache_entries(self.cache).contains_key(key) ==> key.0 <= self.sweep
        &&& cache_limits(self.cache) == (self.capacity, self.life_secs)
        &&& self.life_secs <= MAX_CACHE_LIFE_SECS
    }

    /// The pause before each request, in seconds.
    pub closed spec fn spec_delay_secs(&self) -> u64 {
        self.delay_secs
    }

    /// How many tiles the cache was made to hold at most.
    pub closed spec fn spec_capacity(&self) -> u64 {
        cache_limits(self.cache).0
    }

    /// How long the cache was made to keep a tile, and to keep it unread, in seconds.
    pub closed spec fn spec_life_secs(&self) -> u64 {
        cache_limits(self.cache).1
    }

    /// The settings are within what a cache can be made with: the life of an entry is no
    /// longer than a thousand years.
    pub open spec fn accepts(cfg: NetworkConfig) -> bool {
        cfg.image_cache_life_min * 60 <= MAX_CACHE_LIFE_SECS
    }

    pub fn is_acceptable(cfg: &NetworkConfig) -> (ok: bool)
        ensures
            ok == Self::accepts(*cfg),
    {
        cfg.image_cache_life_min as u128 * 60 <= MAX_CACHE_LIFE_SECS as u128
    }

    /// An empty cache with the capacity, the life of its entries and the pause before a
    /// request that `cfg` sets.
    pub fn new(cfg: &NetworkConfig) -> (c: Self)
        requires
            Self::accepts(*cfg),
        ensures
            c@ == Map::<Position, Seq<u8>>::empty(),
            c.spec_capacity() == cfg.image_cache_capacity,
            c.spec_life_secs() == cfg.image_cache_life_min * 60,
            c.spec_delay_secs() == cfg.sleep_between_requests_sec,
    {
        let capacity: u64 = cfg.image_cache_capacity as u64;
        let life_secs: u64 = 60 * (cfg.image_cache_life_min as u64);
        let cache = cache_build(capacity, life_secs);
        let c = Self {
            cache,
            sweep: 0,
            capacity,
            life_secs,
            delay_secs: cfg.sleep_between_requests_sec as u64,
        };
        assert(c@ =~= Map::<Position, Seq<u8>>::empty());
        c
    }

    pub fn capacity(&self) -> (n: u64)
        ensures
            n == self.spec_capacity(),
    {
        proof {
            use_type_invariant(self);
        }
        self.capacity
    }

    pub fn life_secs(&self) -> (secs: u64)
        ensures
            secs == self.spec_life_secs(),
    {
        proof {
            use_type_invariant(self);
        }
        self.life_secs
    }

    pub fn delay_secs(&self) -> (secs: u64)
        ensures
            secs == self.spec_delay_secs(),
    {
        self.delay_secs
    }

    /// Looks the tile at `pos` up. A tile that is found is one that was stored for `pos` in
    /// this sweep; for one that is not found the request is described.
    pub fn begin_fetch(&self, pos: Position) -> (step: FetchStep)
        ensures
            spec_may_begin(self@, self.spec_delay_secs(), pos, step),
    {
        let found = cache_get(&self.cache, self.sweep, pos.x, pos.y);
        fetch_step(found, self.delay_secs, pos)
    }

    /// Takes the answer to the request for the tile at `pos`. A tile that has arrived is
    /// stored and handed out as not cached; a failure is handed on and nothing is stored.
    pub fn finish_fetch<E>(&mut self, pos: Position, response: Result<Vec<u8>, E>) -> (r: Result<
        (IsCached, ImagePng),
        E,
    >)
        ensures
            final(self).spec_delay_secs() == old(self).spec_delay_secs(),
            final(self).spec_capacity() == old(self).spec_capacity(),
            final(self).spec_life_secs() == old(self).spec_life_secs(),
            match response {
                Ok(bytes) => final(self)@ == old(self)@.insert(pos, bytes@) && (r matches Ok(
                    (cached, img),
                ) && cached == IsCached(false) && img@ == bytes@),
                Err(e) => final(self)@ == old(self)@ && r == Err::<(IsCached, ImagePng), E>(e),
            },
    {
        proof {
            use_type_invariant(&*self);
        }
        match response {
            Ok(bytes) => {
                let img = ImagePng::new(bytes.clone());
                cache_insert(&mut self.cache, self.sweep, pos.x, pos.y, bytes);
                assert(self@ =~= old(self)@.insert(pos, bytes@));
                Ok((IsCached(false), img))
            },
            Err(e) => Err(e),
        }
    }

    /// Ends the sweep: the next lookup of any tile finds nothing. The cache is told to drop
    /// what it holds, and the next sweep stores its tiles under a number of its own.
    pub fn clear(&mut self)
        ensures
            final(self)@ == Map::<Position, Seq<u8>>::empty(),
            final(self).spec_delay_secs() == old(self).spec_delay_secs(),
            final(self).spec_capacity() == old(self).spec_capacity(),
            final(self).spec_life_secs() == old(self).spec_life_secs(),
    {
        proof {
            use_type_invariant(&*self);
        }
        if self.sweep < u64::MAX {
            cache_invalidate_all(&mut self.cache);
            self.sweep = self.sweep + 1;
        } else {
            self.cache = cache_build(self.capacity, self.life_secs);
            self.sweep = 0;
        }
        assert(self@ =~= Map::<Position, Seq<u8>>::empty());
    }
}

} // verus!

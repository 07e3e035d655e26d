//! The catalogue of Grok models that the service offers, and how a model id
//! selects its entry and its token pool.
use vstd::prelude::*;
use crate::json::owned;
use crate::text::str_eq;

verus! {

/// The account tier a model needs.
#[derive(Clone, Copy, Debug, PartialEq, Eq, Structural)]
pub enum Tier {
    Basic,
    Super,
}

/// How much of a token's quota a request to the model costs.
#[derive(Clone, Copy, Debug, PartialEq, Eq, Structural)]
pub enum Cost {
    Low,
    High,
}

/// One model of the catalogue.
#[derive(Debug, PartialEq)]
pub struct ModelInfo {
    pub model_id: String,
    pub grok_model: String,
    pub model_mode: String,
    pub tier: Tier,
    pub cost: Cost,
    pub display_name: String,
    pub description: String,
    pub is_video: bool,
    pub is_image: bool,
}

/// The mathematical value of a [`ModelInfo`].
pub struct ModelInfoV {
    pub model_id: Seq<char>,
    pub grok_model: Seq<char>,
    pub model_mode: Seq<char>,
    pub tier: Tier,
    pub cost: Cost,
    pub display_name: Seq<char>,
    pub description: Seq<char>,
    pub is_video: bool,
    pub is_image: bool,
}

impl View for ModelInfo {
    type V = ModelInfoV;

    open spec fn view(&self) -> ModelInfoV {
        ModelInfoV {
            model_id: self.model_id@,
            grok_model: self.grok_model@,
            model_mode: self.model_mode@,
            tier: self.tier,
            cost: self.cost,
            display_name: self.display_name@,
            description: self.description@,
            is_video: self.is_video,
            is_image: self.is_image,
        }
    }
}

/// A basic-tier, low-cost text model with no description.
pub open spec fn basic_model(
    id: Seq<char>,
    grok: Seq<char>,
    mode: Seq<char>,
    display: Seq<char>,
) -> ModelInfoV {
    ModelInfoV {
        model_id: id,
        grok_model: grok,
        model_mode: mode,
        tier: Tier::Basic,
        cost: Cost::Low,
        display_name: display,
        description: Seq::empty(),
        is_video: false,
        is_image: false,
    }
}

/// The catalogue, in the order in which it is listed.
pub open spec fn catalog() -> Seq<ModelInfoV> {
    seq![
        basic_model("grok-3"@, "grok-3"@, "MODEL_MODE_AUTO"@, "Grok 3"@),
        basic_model("grok-3-fast"@, "grok-3"@, "MODEL_MODE_FAST"@, "Grok 3 Fast"@),
        basic_model("grok-4"@, "grok-4"@, "MODEL_MODE_AUTO"@, "Grok 4"@),
        basic_model(
            "grok-4-mini"@,
            "grok-4-mini-thinking-tahoe"@,
            "MODEL_MODE_GROK_4_MINI_THINKING"@,
            "Grok 4 Mini"@,
        ),
        basic_model("grok-4-fast"@, "grok-4"@, "MODEL_MODE_FAST"@, "Grok 4 Fast"@),
        ModelInfoV {
            tier: Tier::Super,
            cost: Cost::High,
            ..basic_model("grok-4-heavy"@, "grok-4"@, "MODEL_MODE_HEAVY"@, "Grok 4 Heavy"@)
        },
        basic_model("grok-4.1"@, "grok-4-1-thinking-1129"@, "MODEL_MODE_AUTO"@, "Grok 4.1"@),
        basic_model(
            "grok-4.1-fast"@,
            "grok-4-1-thinking-1129"@,
            "MODEL_MODE_FAST"@,
            "Grok 4.1 Fast"@,
        ),
        ModelInfoV {
            cost: Cost::High,
            ..basic_model(
                "grok-4.1-thinking"@,
                "grok-4-1-thinking-1129"@,
                "MODEL_MODE_GROK_4_1_THINKING"@,
                "Grok 4.1 Thinking"@,
            )
        },
        basic_model("grok-4.2-beta"@, "grok-4-2-beta"@, "MODEL_MODE_AUTO"@, "Grok 4.2 Beta"@),
        ModelInfoV {
            cost: Cost::High,
            is_image: true,
            description: "Image generation model"@,
            ..basic_model("grok-imagine-1.0"@, "grok-3"@, "MODEL_MODE_FAST"@, "Grok Image"@)
        },
        ModelInfoV {
            cost: Cost::High,
            is_video: true,
            description: "Video generation model"@,
            ..basic_model("grok-imagine-1.0-video"@, "grok-3"@, "MODEL_MODE_FAST"@, "Grok Video"@)
        },
    ]
}

/// The views of a sequence of models.
pub open spec fn model_views(s: Seq<ModelInfo>) -> Seq<ModelInfoV> {
    s.map_values(|m: ModelInfo| m@)
}

/// The first model at or after position `i` whose id is `id`.
pub open spec fn find_model_from(s: Seq<ModelInfoV>, id: Seq<char>, i: int) -> Option<ModelInfoV>
    decreases s.len() - i,
{
    if i < 0 || i >= s.len() {
        None
    } else if s[i].model_id == id {
        Some(s[i])
    } else {
        find_model_from(s, id, i + 1)
    }
}

/// The catalogue entry of `id`, the first one where several share it.
pub open spec fn find_model(id: Seq<char>) -> Option<ModelInfoV> {
    find_model_from(catalog(), id, 0)
}

/// The token pool that serves requests to `id`.
pub open spec fn pool_of(id: Seq<char>) -> Seq<char> {
    match find_model(id) {
        Some(m) => if m.tier == Tier::Super {
            "ssoSuper"@
        } else {
            "ssoBasic"@
        },
        None => "ssoBasic"@,
    }
}

/// A model whose id stands in the catalogue is found, with that id.
pub proof fn lemma_find_model_from(s: Seq<ModelInfoV>, id: Seq<char>, i: int)
    requires
        0 <= i,
    ensures
        find_model_from(s, id, i) matches Some(m) ==> m.model_id == id && exists|k: int|
            i <= k < s.len() && s[k] == m,
        find_model_from(s, id, i) is None ==> forall|k: int|
            i <= k < s.len() ==> #[trigger] s[k].model_id != id,
    decreases s.len() - i,
{
    if i < s.len() && s[i].model_id != id {
        lemma_find_model_from(s, id, i + 1);
    }
}

impl ModelInfo {
    /// A basic-tier, low-cost text model with no description.
    pub fn new(model_id: &str, grok_model: &str, mode: &str, display: &str) -> (m: ModelInfo)
        ensures
            m@ == basic_model(model_id@, grok_model@, mode@, display@),
    {
        ModelInfo {
            model_id: owned(model_id),
            grok_model: owned(grok_model),
            model_mode: owned(mode),
            tier: Tier::Basic,
            cost: Cost::Low,
            display_name: owned(display),
            description: String::new(),
            is_video: false,
            is_image: false,
        }
    }
}

/// The model catalogue.
pub struct ModelService;

impl ModelService {
    /// Every model of the catalogue, in catalogue order.
    pub fn list() -> (models: Vec<ModelInfo>)
        ensures
            model_views(models@) == catalog(),
    {
        let mut models: Vec<ModelInfo> = Vec::new();
        models.push(ModelInfo::new("grok-3", "grok-3", "MODEL_MODE_AUTO", "Grok 3"));
        models.push(ModelInfo::new("grok-3-fast", "grok-3", "MODEL_MODE_FAST", "Grok 3 Fast"));
        models.push(ModelInfo::new("grok-4", "grok-4", "MODEL_MODE_AUTO", "Grok 4"));
        models.push(
            ModelInfo::new(
                "grok-4-mini",
                "grok-4-mini-thinking-tahoe",
                "MODEL_MODE_GROK_4_MINI_THINKING",
                "Grok 4 Mini",
            ),
        );
        models.push(ModelInfo::new("grok-4-fast", "grok-4", "MODEL_MODE_FAST", "Grok 4 Fast"));
        let mut heavy = ModelInfo::new("grok-4-heavy", "grok-4", "MODEL_MODE_HEAVY", "Grok 4 Heavy");
        heavy.tier = Tier::Super;
        heavy.cost = Cost::High;
        models.push(heavy);
        models.push(
            ModelInfo::new("grok-4.1", "grok-4-1-thinking-1129", "MODEL_MODE_AUTO", "Grok 4.1"),
        );
        models.push(
            ModelInfo::new(
                "grok-4.1-fast",
                "grok-4-1-thinking-1129",
                "MODEL_MODE_FAST",
                "Grok 4.1 Fast",
            ),
        );
        let mut thinking = ModelInfo::new(
            "grok-4.1-thinking",
            "grok-4-1-thinking-1129",
            "MODEL_MODE_GROK_4_1_THINKING",
            "Grok 4.1 Thinking",
        );
        thinking.cost = Cost::High;
        models.push(thinking);
        models.push(
            ModelInfo::new("grok-4.2-beta", "grok-4-2-beta", "MODEL_MODE_AUTO", "Grok 4.2 Beta"),
        );
        let mut image = ModelInfo::new(
            "grok-imagine-1.0",
            "grok-3",
            "MODEL_MODE_FAST",
            "Grok Image",
        );
        image.cost = Cost::High;
        image.is_image = true;
        image.description = owned("Image generation model");
        models.push(image);
        let mut video = ModelInfo::new(
            "grok-imagine-1.0-video",
            "grok-3",
            "MODEL_MODE_FAST",
            "Grok Video",
        );
        video.cost = Cost::High;
        video.is_video = true;
        video.description = owned("Video generation model");
        models.push(video);
        assert(model_views(models@) =~= catalog());
        models
    }

    /// The catalogue entry of `model_id`, if there is one.
    pub fn get(model_id: &str) -> (r: Option<ModelInfo>)
        ensures
            match r {
                Some(m) => find_model(model_id@) == Some(m@),
                None => find_model(model_id@) is None,
            },
    {
        let mut models = Self::list();
        let mut i: usize = 0;
        while i < models.len()
            invariant
                i <= models.len(),
                model_views(models@) == catalog(),
                find_model(model_id@) == find_model_from(catalog(), model_id@, i as int),
            decreases models.len() - i,
        {
            assert(model_views(models@)[i as int] == models@[i as int]@);
            if str_eq(models[i].model_id.as_str(), model_id) {
                let m = models.remove(i);
                return Some(m);
            }
            i += 1;
        }
        None
    }

    /// Whether `model_id` names a model of the catalogue.
    pub fn valid(model_id: &str) -> (r: bool)
        ensures
            r == find_model(model_id@) is Some,
    {
        Self::get(model_id).is_some()
    }

    /// The token pool for `model_id`: the super pool for a super-tier model,
    /// the basic pool for any other id, known or not.
    pub fn pool_for_model(model_id: &str) -> (r: String)
        ensures
            r@ == pool_of(model_id@),
    {
        if let Some(m) = Self::get(model_id) {
            if m.tier == Tier::Super {
                return owned("ssoSuper");
            }
        }
        owned("ssoBasic")
    }
}

/// No two models of the catalogue share an id, so an id names at most one model.
pub proof fn catalog_ids_are_distinct()
    ensures
        forall|i: int, j: int|
            0 <= i < j < catalog().len() ==> #[trigger] catalog()[i].model_id
                != #[trigger] catalog()[j].model_id,
{
    reveal_strlit("grok-3");
    reveal_strlit("grok-3-fast");
    reveal_strlit("grok-4");
    reveal_strlit("grok-4-mini");
    reveal_strlit("grok-4-fast");
    reveal_strlit("grok-4-heavy");
    reveal_strlit("grok-4.1");
    reveal_strlit("grok-4.1-fast");
    reveal_strlit("grok-4.1-thinking");
    reveal_strlit("grok-4.2-beta");
    reveal_strlit("grok-imagine-1.0");
    reveal_strlit("grok-imagine-1.0-video");
    assert("grok-3"@.len() == 6);
    assert("grok-3-fast"@.len() == 11);
    assert("grok-4"@.len() == 6);
    assert("grok-4-mini"@.len() == 11);
    assert("grok-4-fast"@.len() == 11);
    assert("grok-4-heavy"@.len() == 12);
    assert("grok-4.1"@.len() == 8);
    assert("grok-4.1-fast"@.len() == 13);
    assert("grok-4.1-thinking"@.len() == 17);
    assert("grok-4.2-beta"@.len() == 13);
    assert("grok-imagine-1.0"@.len() == 16);
    assert("grok-imagine-1.0-video"@.len() == 22);
    assert("grok-3"@[5] != "grok-4"@[5]);
    assert("grok-3-fast"@[5] != "grok-4-mini"@[5]);
    assert("grok-3-fast"@[5] != "grok-4-fast"@[5]);
    assert("grok-4-mini"@[7] != "grok-4-fast"@[7]);
    assert("grok-4.1-fast"@[7] != "grok-4.2-beta"@[7]);
    assert(catalog()[0].model_id == "grok-3"@);
    assert(catalog()[1].model_id == "grok-3-fast"@);
    assert(catalog()[2].model_id == "grok-4"@);
    assert(catalog()[3].model_id == "grok-4-mini"@);
    assert(catalog()[4].model_id == "grok-4-fast"@);
    assert(catalog()[5].model_id == "grok-4-heavy"@);
    assert(catalog()[6].model_id == "grok-4.1"@);
    assert(catalog()[7].model_id == "grok-4.1-fast"@);
    assert(catalog()[8].model_id == "grok-4.1-thinking"@);
    assert(catalog()[9].model_id == "grok-4.2-beta"@);
    assert(catalog()[10].model_id == "grok-imagine-1.0"@);
    assert(catalog()[11].model_id == "grok-imagine-1.0-video"@);
    assert forall|i: int, j: int|
        0 <= i < j < catalog().len() implies #[trigger] catalog()[i].model_id
            != #[trigger] catalog()[j].model_id by {
        assert(0 <= i < 12 && 0 <= j < 12);
    }
}

/// Looking up an id finds a model with that id, and finds one exactly when
/// the catalogue lists the id.
pub proof fn lookup_finds_the_asked_id(id: Seq<char>)
    ensures
        find_model(id) matches Some(m) ==> m.model_id == id,
        find_model(id) is Some <==> exists|k: int|
            0 <= k < catalog().len() && #[trigger] catalog()[k].model_id == id,
{
    lemma_find_model_from(catalog(), id, 0);
}

/// The super pool serves exactly the models of the super tier: `pool_of(id)`
/// is `ssoSuper` when the catalogue lists `id` with tier `Super`, and
/// `ssoBasic` for every other id, a basic-tier model of high cost included.
pub proof fn super_pool_is_for_super_tier_only(id: Seq<char>)
    ensures
        pool_of(id) == "ssoSuper"@ <==> exists|k: int|
            0 <= k < catalog().len() && #[trigger] catalog()[k].model_id == id && catalog()[k].tier
                == Tier::Super,
        pool_of(id) != "ssoSuper"@ ==> pool_of(id) == "ssoBasic"@,
{
    reveal_strlit("ssoSuper");
    reveal_strlit("ssoBasic");
    assert("ssoSuper"@[3] != "ssoBasic"@[3]);
    lemma_find_model_from(catalog(), id, 0);
    catalog_ids_are_distinct();
    if exists|k: int|
        0 <= k < catalog().len() && #[trigger] catalog()[k].model_id == id && catalog()[k].tier
            == Tier::Super {
        let k = choose|k: int|
            0 <= k < catalog().len() && #[trigger] catalog()[k].model_id == id && catalog()[k].tier
                == Tier::Super;
        let m = find_model(id)->0;
        let j = choose|j: int| 0 <= j < catalog().len() && catalog()[j] == m;
        if j != k {
            if j < k {
                assert(catalog()[j].model_id != catalog()[k].model_id);
            } else {
                assert(catalog()[k].model_id != catalog()[j].model_id);
            }
        }
    }
}

} // verus!

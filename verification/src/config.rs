//! Settings, and what follows from them.
use crate::text::{self, contains_part, joined};
use std::collections::HashMap;
use vstd::prelude::*;
use vstd::string::*;

verus! {

/// Where data is kept.
#[derive(Clone, Debug)]
pub struct Database {
    pub mongodb: String,
    pub redis: String,
    pub redis_pubsub: Option<String>,
}

/// The queues of the message broker.
#[derive(Clone, Debug)]
pub struct RabbitQueues {
    pub acks: String,
}

/// The message broker.
#[derive(Clone, Debug)]
pub struct Rabbit {
    pub host: String,
    pub port: u16,
    pub username: String,
    pub password: String,
    pub default_exchange: String,
    pub queues: RabbitQueues,
}

/// Where the services are.
#[derive(Clone, Debug)]
pub struct Hosts {
    pub app: String,
    pub api: String,
    pub events: String,
    pub autumn: String,
    pub january: String,
    pub livekit: HashMap<String, String>,
}

/// Who can register.
#[derive(Clone, Debug)]
pub struct ApiRegistration {
    pub invite_only: bool,
}

/// How mail is sent.
#[derive(Clone, Debug)]
pub struct ApiSmtp {
    pub host: String,
    pub username: String,
    pub password: String,
    pub from_address: String,
    pub reply_to: Option<String>,
    pub port: Option<i32>,
    pub use_tls: Option<bool>,
    pub use_starttls: Option<bool>,
    pub expiry: EmailExpiry,
}

/// How long codes that are sent by mail last, in seconds.
#[derive(Clone, Debug)]
pub struct EmailExpiry {
    pub expire_verification: i64,
    pub expire_password_reset: i64,
    pub expire_account_deletion: i64,
}

/// Notifications to browsers.
#[derive(Clone, Debug)]
pub struct PushVapid {
    pub queue: String,
    pub private_key: String,
    pub public_key: String,
}

/// Notifications to Android devices.
#[derive(Clone, Debug)]
pub struct PushFcm {
    pub queue: String,
    pub key_type: String,
    pub project_id: String,
    pub private_key_id: String,
    pub private_key: String,
    pub client_email: String,
    pub client_id: String,
    pub auth_uri: String,
    pub token_uri: String,
    pub auth_provider_x509_cert_url: String,
    pub client_x509_cert_url: String,
}

/// Notifications to Apple devices.
#[derive(Clone, Debug)]
pub struct PushApn {
    pub queue: String,
    pub sandbox: bool,
    pub pkcs8: String,
    pub key_id: String,
    pub team_id: String,
}

/// The captcha service.
#[derive(Clone, Debug)]
pub struct ApiSecurityCaptcha {
    pub hcaptcha_key: String,
    pub hcaptcha_sitekey: String,
}

/// The service that judges requests.
#[derive(Clone, Debug)]
pub struct ApiSecurityShield {
    pub host: String,
    pub key: String,
}

/// What protects the service.
#[derive(Clone, Debug)]
pub struct ApiSecurity {
    pub shield: ApiSecurityShield,
    pub voso_legacy_token: String,
    pub captcha: ApiSecurityCaptcha,
    pub trust_cloudflare: bool,
    pub easypwned: String,
    pub tenor_key: String,
}

/// How much is done at a time.
#[derive(Clone, Debug)]
pub struct ApiWorkers {
    pub max_concurrent_connections: usize,
}

/// What holds of users.
#[derive(Clone, Debug)]
pub struct ApiUsers {
    pub early_adopter_cutoff: Option<u64>,
    pub min_username_length: usize,
}

/// Login with Google.
#[derive(Clone, Debug, Default)]
pub struct ApiOauthGoogle {
    pub enabled: bool,
    pub client_id: String,
    pub client_secret: String,
    pub redirect_uri: String,
}

/// Login with Apple.
#[derive(Clone, Debug, Default)]
pub struct ApiOauthApple {
    pub enabled: bool,
    pub client_id: String,
    /// Id of the developer team.
    pub team_id: String,
    /// Id of the private key.
    pub key_id: String,
    /// The private key, as a file would hold it.
    pub private_key: String,
    pub redirect_uri: String,
}

/// Links to Twitch channels; not for login.
#[derive(Clone, Debug, Default)]
pub struct ApiOauthTwitch {
    pub enabled: bool,
    pub client_id: String,
    pub client_secret: String,
    pub redirect_uri: String,
}

/// Links to YouTube channels.
#[derive(Clone, Debug, Default)]
pub struct ApiOauthYoutube {
    pub enabled: bool,
    pub client_id: String,
    pub client_secret: String,
    pub redirect_uri: String,
}

/// Whether servers can be imported.
#[derive(Clone, Debug, Default)]
pub struct ApiImportDiscord {
    pub enabled: bool,
}

/// Imports from elsewhere.
#[derive(Clone, Debug, Default)]
pub struct ApiImport {
    pub discord: ApiImportDiscord,
}

/// Other services to log in with or to link to.
#[derive(Clone, Debug, Default)]
pub struct ApiOauth {
    pub google: ApiOauthGoogle,
    pub apple: ApiOauthApple,
    pub twitch: ApiOauthTwitch,
    pub youtube: ApiOauthYoutube,
}

/// A sound that can be played in every server.
#[derive(Clone, Debug)]
pub struct ApiSoundboardDefaultSound {
    /// Id of the file.
    pub id: String,
    pub name: String,
    pub emoji: Option<String>,
}

/// The sounds for every server.
#[derive(Clone, Debug, Default)]
pub struct ApiSoundboard {
    pub default_sounds: Vec<ApiSoundboardDefaultSound>,
}

/// A bot that is offered; `bot_id` is that of a public bot.
#[derive(Clone, Debug)]
pub struct ApiAppCatalogEntry {
    pub bot_id: String,
    pub tagline: Option<String>,
}

/// The bots that are offered.
#[derive(Clone, Debug, Default)]
pub struct ApiApps {
    pub catalog: Vec<ApiAppCatalogEntry>,
}

/// The search for moving images; off without a key.
#[derive(Clone, Debug, Default)]
pub struct ApiGifs {
    pub giphy_key: String,
}

/// The service that sends notifications.
#[derive(Clone, Debug)]
pub struct Pushd {
    pub production: bool,
    pub exchange: String,
    pub mass_mention_chunk_size: usize,
    pub render_cache_time: usize,
    pub message_queue: String,
    pub mass_mention_queue: String,
    pub dm_call_queue: String,
    pub fr_accepted_queue: String,
    pub fr_received_queue: String,
    pub generic_queue: String,
    pub calendar_event_queue: String,
    pub ack_queue: String,
    pub vapid: PushVapid,
    pub fcm: PushFcm,
    pub apn: PushApn,
}

/// The service that fetches pages.
#[derive(Clone, Debug)]
pub struct January {
    pub blocked_domains: Vec<String>,
}

/// Limits of files.
#[derive(Clone, Debug)]
pub struct FilesLimit {
    pub min_file_size: usize,
    pub min_resolution: [usize; 2],
    pub max_mega_pixels: usize,
    pub max_pixel_side: usize,
}

/// Where files are kept.
#[derive(Clone, Debug)]
pub struct FilesS3 {
    pub endpoint: String,
    pub path_style_buckets: bool,
    pub region: String,
    pub access_key_id: String,
    pub secret_access_key: String,
    pub default_bucket: String,
}

/// Limits for everyone.
#[derive(Clone, Debug)]
pub struct GlobalLimits {
    pub group_size: usize,
    pub message_embeds: usize,
    pub message_replies: usize,
    pub message_reactions: usize,
    pub server_emoji: usize,
    pub server_stickers: usize,
    pub server_sounds: usize,
    pub server_roles: usize,
    pub server_channels: usize,
    pub threads_per_channel: usize,
    pub scheduled_messages_per_channel: usize,
    pub scheduled_messages_per_user: usize,
    pub followers_per_channel: usize,
    pub crossposts_per_hour: usize,
    pub new_user_hours: usize,
    pub body_limit_size: usize,
    pub restrict_server_creation: Vec<String>,
}

/// Links to legal texts.
#[derive(Clone, Debug)]
pub struct LegalLinks {
    pub terms_of_service: String,
    pub privacy_policy: String,
    pub guidelines: String,
}

/// Rarely changed settings.
#[derive(Clone, Debug)]
pub struct FeaturesAdvanced {
    pub process_message_delay_limit: u16,
}

/// What a tier of boosts gives. What is not there is not changed.
#[derive(Clone, Copy, Debug, PartialEq, Eq)]
pub struct BoostTierPerks {
    pub server_emoji: Option<usize>,
    pub server_sounds: Option<usize>,
}

/// Boosts of servers. Off unless turned on.
#[derive(Clone, Debug)]
pub struct BoostFeatures {
    /// Whether there are boosts at all.
    pub enabled: bool,
    /// Whether clients are told that boosts can be bought.
    pub purchases_enabled: bool,
    /// Boosts that each tier takes.
    pub tier_thresholds: [u32; 3],
    /// Boosts that one user can give to one server.
    pub max_per_user_per_server: u32,
    pub tier1: BoostTierPerks,
    pub tier2: BoostTierPerks,
    pub tier3: BoostTierPerks,
}

/// Where errors are reported, for each service.
#[derive(Clone, Debug)]
pub struct Sentry {
    pub api: String,
    pub events: String,
    pub voice_ingress: String,
    pub files: String,
    pub proxy: String,
    pub pushd: String,
    pub crond: String,
    pub gifbox: String,
}

/// The key that a queue is reached under.
pub open spec fn routing_key(production: bool, queue: Seq<char>) -> Seq<char> {
    if production {
        queue + "-prd"@
    } else {
        queue + "-tst"@
    }
}

impl Pushd {
    fn get_routing_key(&self, key: &str) -> (r: String)
        ensures
            r@ == routing_key(self.production, key@),
    {
        if self.production {
            joined(key, "-prd")
        } else {
            joined(key, "-tst")
        }
    }

    /// The key of the queue for acknowledgements.
    pub fn get_ack_routing_key(&self) -> (r: String)
        ensures
            r@ == routing_key(self.production, self.ack_queue@),
    {
        self.get_routing_key(self.ack_queue.as_str())
    }

    /// The key of the queue for messages.
    pub fn get_message_routing_key(&self) -> (r: String)
        ensures
            r@ == routing_key(self.production, self.message_queue@),
    {
        self.get_routing_key(self.message_queue.as_str())
    }

    /// The key of the queue for mentions of many.
    pub fn get_mass_mention_routing_key(&self) -> (r: String)
        ensures
            r@ == routing_key(self.production, self.mass_mention_queue@),
    {
        self.get_routing_key(self.mass_mention_queue.as_str())
    }

    /// The key of the queue for calls.
    pub fn get_dm_call_routing_key(&self) -> (r: String)
        ensures
            r@ == routing_key(self.production, self.dm_call_queue@),
    {
        self.get_routing_key(self.dm_call_queue.as_str())
    }

    /// The key of the queue for accepted friend requests.
    pub fn get_fr_accepted_routing_key(&self) -> (r: String)
        ensures
            r@ == routing_key(self.production, self.fr_accepted_queue@),
    {
        self.get_routing_key(self.fr_accepted_queue.as_str())
    }

    /// The key of the queue for friend requests.
    pub fn get_fr_received_routing_key(&self) -> (r: String)
        ensures
            r@ == routing_key(self.production, self.fr_received_queue@),
    {
        self.get_routing_key(self.fr_received_queue.as_str())
    }

    /// The key of the queue for other notifications.
    pub fn get_generic_routing_key(&self) -> (r: String)
        ensures
            r@ == routing_key(self.production, self.generic_queue@),
    {
        self.get_routing_key(self.generic_queue.as_str())
    }

    /// The key of the queue for calendar events.
    pub fn get_calendar_event_routing_key(&self) -> (r: String)
        ensures
            r@ == routing_key(self.production, self.calendar_event_queue@),
    {
        self.get_routing_key(self.calendar_event_queue.as_str())
    }
}

/// Production and test never share a queue, and two queues never share a key.
pub proof fn law_routing_keys_are_apart(a: Seq<char>, b: Seq<char>, production: bool)
    ensures
        routing_key(true, a) != routing_key(false, b),
        routing_key(production, a) == routing_key(production, b) ==> a == b,
{
    reveal_strlit("-prd");
    reveal_strlit("-tst");
    assert(routing_key(true, a).last() == 'd');
    assert(routing_key(false, b).last() == 't');
    if routing_key(production, a) == routing_key(production, b) {
        let n = routing_key(production, a).len() - 4;
        assert(routing_key(production, a).take(n) =~= a);
        assert(routing_key(production, b).take(n) =~= b);
    }
}

/// Whether an address is that of a public instance.
pub open spec fn is_production_address(api: Seq<char>) -> bool {
    text::has_part(api, "https"@) && (text::has_part(api, "revolt.chat"@) || text::has_part(
        api,
        "stoat.chat"@,
    ))
}

impl Hosts {
    /// Whether the service is a public instance, by its address.
    pub fn is_production(&self) -> (r: bool)
        ensures
            r == is_production_address(self.api@),
    {
        contains_part(self.api.as_str(), "https") && (contains_part(
            self.api.as_str(),
            "revolt.chat",
        ) || contains_part(self.api.as_str(), "stoat.chat"))
    }
}

/// What is missing for the service to work in full.
pub fn preflight_checks(smtp: &ApiSmtp, captcha: &ApiSecurityCaptcha) -> (r: Vec<&'static str>)
    ensures
        r@ == (if smtp.host@.len() == 0 {
            seq!["No SMTP settings specified! Remember to configure email."]
        } else {
            Seq::empty()
        }) + (if captcha.hcaptcha_key@.len() == 0 {
            seq!["No Captcha key specified! Remember to add hCaptcha key."]
        } else {
            Seq::empty()
        }),
{
    let mut out: Vec<&'static str> = Vec::new();
    if text::length(smtp.host.as_str()) == 0 {
        out.push("No SMTP settings specified! Remember to configure email.");
    }
    if text::length(captcha.hcaptcha_key.as_str()) == 0 {
        out.push("No Captcha key specified! Remember to add hCaptcha key.");
    }
    out
}

impl Default for FeaturesAdvanced {
    /// A limit of 5.
    fn default() -> (r: Self)
        ensures
            r.process_message_delay_limit == 5,
    {
        FeaturesAdvanced { process_message_delay_limit: 5 }
    }
}

impl Default for BoostTierPerks {
    /// Nothing is changed.
    fn default() -> (r: Self)
        ensures
            r.server_emoji is None,
            r.server_sounds is None,
    {
        BoostTierPerks { server_emoji: None, server_sounds: None }
    }
}

impl Default for BoostFeatures {
    /// Off, with the usual tiers.
    fn default() -> (r: Self)
        ensures
            !r.enabled,
            !r.purchases_enabled,
            r.tier_thresholds@ == seq![2u32, 7, 14],
            r.max_per_user_per_server == 100,
            r.tier1 == (BoostTierPerks { server_emoji: Some(200), server_sounds: Some(48) }),
            r.tier2 == (BoostTierPerks { server_emoji: Some(300), server_sounds: Some(72) }),
            r.tier3 == (BoostTierPerks { server_emoji: Some(500), server_sounds: Some(96) }),
    {
        BoostFeatures {
            enabled: false,
            purchases_enabled: false,
            tier_thresholds: BoostFeatures::default_tier_thresholds(),
            max_per_user_per_server: BoostFeatures::default_max_per_user_per_server(),
            tier1: BoostFeatures::default_tier1(),
            tier2: BoostFeatures::default_tier2(),
            tier3: BoostFeatures::default_tier3(),
        }
    }
}

/// The highest tier whose threshold a number of boosts meets.
pub open spec fn tier_of(thresholds: Seq<u32>, count: u32) -> int
    decreases thresholds.len(),
{
    if thresholds.len() == 0 {
        0
    } else if count >= thresholds.last() {
        thresholds.len() as int
    } else {
        tier_of(thresholds.drop_last(), count)
    }
}

/// The largest of a limit and what is given in its place.
pub open spec fn raised(limit: usize, given: Seq<Option<usize>>) -> usize
    decreases given.len(),
{
    if given.len() == 0 {
        limit
    } else {
        let rest = raised(limit, given.drop_last());
        match given.last() {
            Some(n) => if n > rest {
                n
            } else {
                rest
            },
            None => rest,
        }
    }
}

impl BoostFeatures {
    /// What the tiers up to one give.
    pub open spec fn perks(&self, tier: u32) -> Seq<BoostTierPerks> {
        seq![self.tier1, self.tier2, self.tier3].take(
            if tier < 3 {
                tier as int
            } else {
                3
            },
        )
    }

    /// The limit of emoji that a server has in a tier.
    pub open spec fn emoji_limit(&self, limit: usize, tier: u32) -> usize {
        if self.enabled {
            raised(limit, self.perks(tier).map_values(|p: BoostTierPerks| p.server_emoji))
        } else {
            limit
        }
    }

    /// The limit of sounds that a server has in a tier.
    pub open spec fn sound_limit(&self, limit: usize, tier: u32) -> usize {
        if self.enabled {
            raised(limit, self.perks(tier).map_values(|p: BoostTierPerks| p.server_sounds))
        } else {
            limit
        }
    }

    fn default_tier_thresholds() -> (r: [u32; 3])
        ensures
            r@ == seq![2u32, 7, 14],
    {
        let r: [u32; 3] = [2, 7, 14];
        assert(r@ =~= seq![2u32, 7, 14]);
        r
    }

    fn default_max_per_user_per_server() -> (r: u32)
        ensures
            r == 100,
    {
        100
    }

    fn default_tier1() -> (r: BoostTierPerks)
        ensures
            r == (BoostTierPerks { server_emoji: Some(200), server_sounds: Some(48) }),
    {
        BoostTierPerks { server_emoji: Some(200), server_sounds: Some(48) }
    }

    fn default_tier2() -> (r: BoostTierPerks)
        ensures
            r == (BoostTierPerks { server_emoji: Some(300), server_sounds: Some(72) }),
    {
        BoostTierPerks { server_emoji: Some(300), server_sounds: Some(72) }
    }

    fn default_tier3() -> (r: BoostTierPerks)
        ensures
            r == (BoostTierPerks { server_emoji: Some(500), server_sounds: Some(96) }),
    {
        BoostTierPerks { server_emoji: Some(500), server_sounds: Some(96) }
    }

    /// The tier that a number of boosts gives: the highest whose threshold is met.
    pub fn tier_for(&self, count: u32) -> (r: u32)
        ensures
            r == tier_of(self.tier_thresholds@, count),
    {
        let ghost all = self.tier_thresholds@;
        let mut tier: u32 = 0;
        let mut i: usize = 0;
        while i < 3
            invariant
                i <= 3,
                all == self.tier_thresholds@,
                all.len() == 3,
                tier == tier_of(all.take(i as int), count),
            decreases 3 - i,
        {
            proof {
                assert(all.take(i + 1).drop_last() =~= all.take(i as int));
                assert(all.take(i + 1).last() == all[i as int]);
            }
            if count >= self.tier_thresholds[i] {
                tier = i as u32 + 1;
            }
            i = i + 1;
        }
        assert(all.take(3) =~= all);
        tier
    }

    /// The boosts that the tier after one takes, where there is one.
    pub fn next_tier_at(&self, tier: u32) -> (r: Option<u32>)
        ensures
            r == if tier < 3 {
                Some(self.tier_thresholds@[tier as int])
            } else {
                None
            },
    {
        if tier < 3 {
            Some(self.tier_thresholds[tier as usize])
        } else {
            None
        }
    }

    fn perks_up_to(&self, tier: u32) -> (r: Vec<BoostTierPerks>)
        ensures
            r@ == self.perks(tier),
    {
        let mut out: Vec<BoostTierPerks> = Vec::new();
        if tier >= 1 {
            out.push(self.tier1);
        }
        if tier >= 2 {
            out.push(self.tier2);
        }
        if tier >= 3 {
            out.push(self.tier3);
        }
        assert(out@ =~= self.perks(tier));
        out
    }

    /// The limit of emoji that a server has in a tier: the largest of the limit for
    /// everyone and what the tiers up to it give. Without boosts, the limit for everyone.
    pub fn effective_server_emoji(&self, global: usize, tier: u32) -> (r: usize)
        ensures
            r == self.emoji_limit(global, tier),
    {
        if !self.enabled {
            return global;
        }
        let perks = self.perks_up_to(tier);
        let ghost given = self.perks(tier).map_values(|p: BoostTierPerks| p.server_emoji);
        let mut most: usize = global;
        let mut i: usize = 0;
        assert(given.take(0) =~= Seq::empty());
        while i < perks.len()
            invariant
                i <= perks.len(),
                perks@ == self.perks(tier),
                given == self.perks(tier).map_values(|p: BoostTierPerks| p.server_emoji),
                most == raised(global, given.take(i as int)),
            decreases perks.len() - i,
        {
            proof {
                assert(given.take(i + 1).drop_last() =~= given.take(i as int));
                assert(given.take(i + 1).last() == perks@[i as int].server_emoji);
            }
            if let Some(n) = perks[i].server_emoji {
                if n > most {
                    most = n;
                }
            }
            i = i + 1;
        }
        assert(given.take(i as int) =~= given);
        most
    }

    /// The limit of sounds that a server has in a tier, in the same way.
    pub fn effective_server_sounds(&self, global: usize, tier: u32) -> (r: usize)
        ensures
            r == self.sound_limit(global, tier),
    {
        if !self.enabled {
            return global;
        }
        let perks = self.perks_up_to(tier);
        let ghost given = self.perks(tier).map_values(|p: BoostTierPerks| p.server_sounds);
        let mut most: usize = global;
        let mut i: usize = 0;
        assert(given.take(0) =~= Seq::empty());
        while i < perks.len()
            invariant
                i <= perks.len(),
                perks@ == self.perks(tier),
                given == self.perks(tier).map_values(|p: BoostTierPerks| p.server_sounds),
                most == raised(global, given.take(i as int)),
            decreases perks.len() - i,
        {
            proof {
                assert(given.take(i + 1).drop_last() =~= given.take(i as int));
                assert(given.take(i + 1).last() == perks@[i as int].server_sounds);
            }
            if let Some(n) = perks[i].server_sounds {
                if n > most {
                    most = n;
                }
            }
            i = i + 1;
        }
        assert(given.take(i as int) =~= given);
        most
    }
}

proof fn lemma_raised(limit: usize, given: Seq<Option<usize>>)
    ensures
        raised(limit, given) >= limit,
        forall|i: int| 0 <= i < given.len() && (#[trigger] given[i]) is Some ==> raised(limit, given)
            >= given[i]->Some_0,
    decreases given.len(),
{
    if given.len() > 0 {
        lemma_raised(limit, given.drop_last());
        assert forall|i: int| 0 <= i < given.len() && (#[trigger] given[i]) is Some implies raised(
            limit,
            given,
        ) >= given[i]->Some_0 by {
            if i < given.len() - 1 {
                assert(given.drop_last()[i] == given[i]);
            }
        }
    }
}

proof fn lemma_raised_grows(limit: usize, given: Seq<Option<usize>>, n: int)
    requires
        0 <= n <= given.len(),
    ensures
        raised(limit, given.take(n)) <= raised(limit, given),
    decreases given.len() - n,
{
    if n < given.len() {
        lemma_raised_grows(limit, given, n + 1);
        assert(given.take(n + 1).drop_last() =~= given.take(n));
    } else {
        assert(given.take(n) =~= given);
    }
}

/// Boosting never lowers a limit, and a higher tier never gives less than a lower one:
/// what a tier does not give, the lower ones still do.
pub proof fn law_boosting_never_lowers_a_limit(
    boosts: BoostFeatures,
    limit: usize,
    lower: u32,
    higher: u32,
)
    requires
        lower <= higher,
    ensures
        limit <= boosts.emoji_limit(limit, lower) <= boosts.emoji_limit(limit, higher),
        limit <= boosts.sound_limit(limit, lower) <= boosts.sound_limit(limit, higher),
        boosts.emoji_limit(limit, 0) == limit,
        boosts.sound_limit(limit, 0) == limit,
{
    let n: int = if lower < 3 {
        lower as int
    } else {
        3
    };
    let emoji = boosts.perks(higher).map_values(|p: BoostTierPerks| p.server_emoji);
    let sounds = boosts.perks(higher).map_values(|p: BoostTierPerks| p.server_sounds);
    assert(boosts.perks(lower).map_values(|p: BoostTierPerks| p.server_emoji) =~= emoji.take(n));
    assert(boosts.perks(lower).map_values(|p: BoostTierPerks| p.server_sounds) =~= sounds.take(n));
    lemma_raised(limit, emoji.take(n));
    lemma_raised(limit, sounds.take(n));
    lemma_raised_grows(limit, emoji, n);
    lemma_raised_grows(limit, sounds, n);
}

/// More boosts never give a lower tier; a tier is one whose threshold is met, and no
/// higher one's is.
pub proof fn law_tier_is_the_highest_met(thresholds: Seq<u32>, count: u32, more: u32)
    requires
        count <= more,
    ensures
        0 <= tier_of(thresholds, count) <= tier_of(thresholds, more) <= thresholds.len(),
        tier_of(thresholds, count) > 0 ==> count >= thresholds[tier_of(thresholds, count) - 1],
        forall|i: int|
            tier_of(thresholds, count) <= i < thresholds.len() ==> count < #[trigger] thresholds[i],
    decreases thresholds.len(),
{
    if thresholds.len() > 0 {
        let rest = thresholds.drop_last();
        law_tier_is_the_highest_met(rest, count, more);
        assert forall|i: int|
            tier_of(thresholds, count) <= i < thresholds.len() implies count
            < #[trigger] thresholds[i] by {
            if i < rest.len() {
                assert(rest[i] == thresholds[i]);
            }
        }
    }
}

/// A server's limit is the largest of the usual one and those that the tiers up to its own
/// give; where boosts are off it is the usual one.
pub proof fn law_limit_is_the_largest_given(boosts: BoostFeatures, limit: usize, tier: u32)
    ensures
        !boosts.enabled ==> boosts.emoji_limit(limit, tier) == limit && boosts.sound_limit(
            limit,
            tier,
        ) == limit,
        boosts.enabled && tier >= 1 ==> (boosts.tier1.server_emoji matches Some(n)
            ==> boosts.emoji_limit(limit, tier) >= n) && (boosts.tier1.server_sounds matches Some(n)
            ==> boosts.sound_limit(limit, tier) >= n),
        boosts.enabled && tier >= 2 ==> (boosts.tier2.server_emoji matches Some(n)
            ==> boosts.emoji_limit(limit, tier) >= n) && (boosts.tier2.server_sounds matches Some(n)
            ==> boosts.sound_limit(limit, tier) >= n),
        boosts.enabled && tier >= 3 ==> (boosts.tier3.server_emoji matches Some(n)
            ==> boosts.emoji_limit(limit, tier) >= n) && (boosts.tier3.server_sounds matches Some(n)
            ==> boosts.sound_limit(limit, tier) >= n),
        boosts.emoji_limit(limit, tier) == limit || tier >= 1 && boosts.tier1.server_emoji == Some(
            boosts.emoji_limit(limit, tier),
        ) || tier >= 2 && boosts.tier2.server_emoji == Some(boosts.emoji_limit(limit, tier))
            || tier >= 3 && boosts.tier3.server_emoji == Some(boosts.emoji_limit(limit, tier)),
        boosts.sound_limit(limit, tier) == limit || tier >= 1 && boosts.tier1.server_sounds == Some(
            boosts.sound_limit(limit, tier),
        ) || tier >= 2 && boosts.tier2.server_sounds == Some(boosts.sound_limit(limit, tier))
            || tier >= 3 && boosts.tier3.server_sounds == Some(boosts.sound_limit(limit, tier)),
{
    reveal_with_fuel(raised, 4);
    let e = boosts.perks(tier).map_values(|p: BoostTierPerks| p.server_emoji);
    let s = boosts.perks(tier).map_values(|p: BoostTierPerks| p.server_sounds);
    if e.len() > 0 {
        assert(e[0] == boosts.tier1.server_emoji && s[0] == boosts.tier1.server_sounds);
    }
    if e.len() > 1 {
        assert(e[1] == boosts.tier2.server_emoji && s[1] == boosts.tier2.server_sounds);
    }
    if e.len() > 2 {
        assert(e[2] == boosts.tier3.server_emoji && s[2] == boosts.tier3.server_sounds);
    }
}

/// An instance is a public one where its address is reached safely and is one of the public
/// ones.
pub proof fn law_which_instances_are_public(api: Seq<char>, i: int, j: int)
    ensures
        ({
            let safe = 0 <= i <= api.len() - "https"@.len() && api.subrange(
                i,
                i + "https"@.len(),
            ) == "https"@;
            let first = 0 <= j <= api.len() - "revolt.chat"@.len() && api.subrange(
                j,
                j + "revolt.chat"@.len(),
            ) == "revolt.chat"@;
            let second = 0 <= j <= api.len() - "stoat.chat"@.len() && api.subrange(
                j,
                j + "stoat.chat"@.len(),
            ) == "stoat.chat"@;
            &&& safe && (first || second) ==> is_production_address(api)
            &&& is_production_address(api) ==> text::has_part(api, "https"@)
            &&& is_production_address(api) ==> text::has_part(api, "revolt.chat"@)
                || text::has_part(api, "stoat.chat"@)
        }),
{
}

} // verus!

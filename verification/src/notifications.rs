//! The notification dispatcher's verified core: the channel registry, the
//! full rendering of a notification message, and the dispatch plan — one
//! attempt per (match, enabled channel) pair.  Delivering an attempt is a
//! network call and stays outside; a dispatch task either gets a fully
//! rendered attempt from here or is never spawned.

use vstd::prelude::*;

use crate::conditions::{spec_condition_type_str, Condition, ConditionType};
use crate::config::Configuration;
use crate::items::{spec_item_condition_str, Item};
use crate::prices::{price_wf, Price};
use crate::text::{format_cents, i64_to_string, spec_cents_str, spec_int_str};

verus! {

/// The credentials of the telegram notification channel.
#[derive(Clone, Debug)]
pub struct TelegramApiData {
    pub api_key: String,
    pub user_id: i64,
}

impl TelegramApiData {
    pub fn new(api_key: String, user_id: i64) -> (r: TelegramApiData)
        ensures
            r.api_key == api_key,
            r.user_id == user_id,
    {
        TelegramApiData { api_key, user_id }
    }
}

/// The credentials of the discord notification channel.
#[derive(Clone, Debug)]
pub struct DiscordBotData {
    pub client_token: String,
    pub user_id: i64,
}

impl DiscordBotData {
    pub fn new(client_token: String, user_id: i64) -> (r: DiscordBotData)
        ensures
            r.client_token == client_token,
            r.user_id == user_id,
    {
        DiscordBotData { client_token, user_id }
    }
}

/// One configured notification channel.
pub enum ChannelTarget {
    Telegram(TelegramApiData),
    Discord(DiscordBotData),
}

/// One fully rendered delivery attempt: everything a channel needs, per the
/// channel contract `notify(description, catalogId, imageRef?, message)`.
pub struct DispatchAttempt {
    pub target: ChannelTarget,
    pub description: String,
    pub catalog_id: i64,
    /// The item's image reference, when it has one: such a channel takes
    /// the image-bearing delivery path, otherwise the plain-text path.
    pub image: Option<String>,
    pub message: String,
}

/// The manager of the configured notification channels.
pub struct NotificationManager {
    pub telegram_data: Option<TelegramApiData>,
    pub discord_data: Option<DiscordBotData>,
}

/// The enabled channels, in dispatch order: telegram first, then discord.
pub open spec fn spec_channels(m: NotificationManager) -> Seq<ChannelTarget> {
    let t: Seq<ChannelTarget> = match m.telegram_data {
        Some(d) => seq![ChannelTarget::Telegram(d)],
        None => Seq::empty(),
    };
    let d: Seq<ChannelTarget> = match m.discord_data {
        Some(d) => seq![ChannelTarget::Discord(d)],
        None => Seq::empty(),
    };
    t + d
}

/// The emphasis markers a channel's markup uses around highlighted fields.
pub open spec fn spec_markup_open(c: ChannelTarget) -> Seq<char> {
    match c {
        ChannelTarget::Telegram(_) => "<b>"@,
        ChannelTarget::Discord(_) => "**"@,
    }
}

pub open spec fn spec_markup_close(c: ChannelTarget) -> Seq<char> {
    match c {
        ChannelTarget::Telegram(_) => "</b>"@,
        ChannelTarget::Discord(_) => "**"@,
    }
}

/// The condition threshold as the message shows it: an amount in cents for
/// four kinds, a fraction for `PriceDrop`.
pub open spec fn spec_value_str(cond: Condition) -> Seq<char> {
    if cond.condition_type is PriceDrop {
        spec_cents_str((cond.value / 100) as nat)
    } else {
        spec_cents_str(cond.value as nat)
    }
}

/// The requested item condition as the message shows it.
pub open spec fn spec_filter_str(cond: Condition) -> Seq<char> {
    match cond.item_condition {
        Some(c) => spec_item_condition_str(c),
        None => "none"@,
    }
}

/// The full text of a notification message, with the channel's emphasis
/// markers `bo`/`bc` around the highlighted fields.
pub open spec fn spec_render_message(
    item: Item,
    price: Price,
    cond: Condition,
    bo: Seq<char>,
    bc: Seq<char>,
) -> Seq<char> {
    "met search notification on item:\n"@ + bo + item.description@ + bc + "\n"@ + bo + spec_int_str(
        item.jan as int,
    ) + bc + "\n\nprice: "@ + bo + spec_cents_str(price.converted_price as nat) + " "@
        + price.converted_currency@ + bc + "\nprice with taxes: "@ + bo + spec_cents_str(
        (price.converted_price * (10000 + price.taxes) / 10000) as nat,
    ) + " "@ + price.converted_currency@ + bc + "\nprice with shipping and taxes: "@ + bo
        + spec_cents_str(
        ((price.converted_price + price.shipping) * (10000 + price.taxes) / 10000) as nat,
    ) + " "@ + price.converted_currency@ + bc + "\nraw price: "@ + bo + spec_cents_str(
        price.price as nat,
    ) + " "@ + price.currency@ + bc + "\n\nitem condition: "@ + bo + spec_item_condition_str(
        price.condition,
    ) + bc + "\n\nnotification type: "@ + bo + spec_condition_type_str(cond.condition_type) + bc
        + "\nrequested item condition: "@ + bo + spec_filter_str(cond) + bc + "\nvalue: "@ + bo
        + spec_value_str(cond) + bc + "\n\nlink: "@ + price.url@
}

/// Renders the notification message for one matched price.
pub fn render_message(
    item: &Item,
    price: &Price,
    cond: &Condition,
    bold_open: &str,
    bold_close: &str,
) -> (r: String)
    requires
        price_wf(*price),
    ensures
        r@ == spec_render_message(*item, *price, *cond, bold_open@, bold_close@),
{
    let mut m = String::from_str("met search notification on item:\n");
    m.append(bold_open);
    m.append(item.description.as_str());
    m.append(bold_close);
    m.append("\n");
    m.append(bold_open);
    let jan = i64_to_string(item.jan);
    m.append(jan.as_str());
    m.append(bold_close);
    m.append("\n\nprice: ");
    m.append(bold_open);
    let conv = format_cents(price.converted_price);
    m.append(conv.as_str());
    m.append(" ");
    m.append(price.converted_currency.as_str());
    m.append(bold_close);
    m.append("\nprice with taxes: ");
    m.append(bold_open);
    let taxed = format_cents(price.get_converted_taxed());
    m.append(taxed.as_str());
    m.append(" ");
    m.append(price.converted_currency.as_str());
    m.append(bold_close);
    m.append("\nprice with shipping and taxes: ");
    m.append(bold_open);
    let total = format_cents(price.get_converted_total());
    m.append(total.as_str());
    m.append(" ");
    m.append(price.converted_currency.as_str());
    m.append(bold_close);
    m.append("\nraw price: ");
    m.append(bold_open);
    let raw = format_cents(price.price);
    m.append(raw.as_str());
    m.append(" ");
    m.append(price.currency.as_str());
    m.append(bold_close);
    m.append("\n\nitem condition: ");
    m.append(bold_open);
    let cond_str = price.condition.to_string();
    m.append(cond_str.as_str());
    m.append(bold_close);
    m.append("\n\nnotification type: ");
    m.append(bold_open);
    let kind = cond.condition_type.to_string();
    m.append(kind.as_str());
    m.append(bold_close);
    m.append("\nrequested item condition: ");
    m.append(bold_open);
    match &cond.item_condition {
        Some(c) => {
            let f = c.to_string();
            m.append(f.as_str());
        },
        None => {
            m.append("none");
        },
    }
    m.append(bold_close);
    m.append("\nvalue: ");
    m.append(bold_open);
    let value = if let ConditionType::PriceDrop = cond.condition_type {
        format_cents(cond.value / 100)
    } else {
        format_cents(cond.value)
    };
    m.append(value.as_str());
    m.append(bold_close);
    m.append("\n\nlink: ");
    m.append(price.url.as_str());
    proof {
        assert(m@ =~= spec_render_message(*item, *price, *cond, bold_open@, bold_close@));
    }
    m
}

/// How one dispatch attempt relates to one matched price and one channel:
/// the channel's fully rendered message, the item's description and catalog
/// code, and the image reference exactly when the item has one.
pub open spec fn spec_attempt_for(
    a: DispatchAttempt,
    item: Item,
    price: Price,
    cond: Condition,
    c: ChannelTarget,
) -> bool {
    &&& a.target == c
    &&& a.description@ == item.description@
    &&& a.catalog_id == item.jan
    &&& (item.image@.len() == 0 ==> a.image is None)
    &&& (item.image@.len() > 0 ==> (a.image matches Some(u) && u@ == item.image@))
    &&& a.message@ == spec_render_message(item, price, cond, spec_markup_open(c), spec_markup_close(c))
}

impl NotificationManager {
    /// The manager of the channels the configuration enables.
    pub fn new(config: &Configuration) -> (r: NotificationManager)
        ensures
            match r.telegram_data {
                Some(d) => config.telegram_active && (config.telegram_api_key matches Some(k)
                    && d.api_key@ == k@) && (config.telegram_user_id matches Some(u) && d.user_id
                    == u),
                None => !config.telegram_active || config.telegram_api_key is None
                    || config.telegram_user_id is None,
            },
            match r.discord_data {
                Some(d) => config.discord_active && (config.discord_client_token matches Some(k)
                    && d.client_token@ == k@) && (config.discord_user_id matches Some(u)
                    && d.user_id == u),
                None => !config.discord_active || config.discord_client_token is None
                    || config.discord_user_id is None,
            },
    {
        let mut manager = NotificationManager { telegram_data: None, discord_data: None };
        if let Some(api_key) = config.get_telegram_api_key() {
            if let Some(user_id) = config.get_telegram_user_id() {
                manager.telegram_data = Some(TelegramApiData::new(api_key, user_id));
            }
        }
        if let Some(client_token) = config.get_discord_client_token() {
            if let Some(user_id) = config.get_discord_user_id() {
                manager.discord_data = Some(DiscordBotData::new(client_token, user_id));
            }
        }
        manager
    }

    /// Renders one delivery attempt per enabled channel for one matched
    /// price, in dispatch order.
    pub fn notify(&self, item: &Item, price: &Price, cond: &Condition) -> (attempts: Vec<
        DispatchAttempt,
    >)
        requires
            price_wf(*price),
        ensures
            attempts@.len() == spec_channels(*self).len(),
            forall|j: int|
                0 <= j < attempts@.len() ==> spec_attempt_for(
                    #[trigger] attempts@[j],
                    *item,
                    *price,
                    *cond,
                    spec_channels(*self)[j],
                ),
    {
        let mut attempts: Vec<DispatchAttempt> = Vec::new();
        if let Some(data) = &self.telegram_data {
            let a = build_attempt(
                ChannelTarget::Telegram(TelegramApiData::new(data.api_key.clone(), data.user_id)),
                item,
                price,
                cond,
                "<b>",
                "</b>",
            );
            attempts.push(a);
        }
        if let Some(data) = &self.discord_data {
            let a = build_attempt(
                ChannelTarget::Discord(DiscordBotData::new(data.client_token.clone(), data.user_id)),
                item,
                price,
                cond,
                "**",
                "**",
            );
            attempts.push(a);
        }
        attempts
    }
}

/// One matched (tracked item, observed price, trigger condition) triple,
/// carried into a dispatch task.
pub struct ConditionMatch {
    pub item: Item,
    pub price: Price,
    pub condition: Condition,
}

/// Dispatch completion: the plan for one check cycle holds exactly one fully
/// rendered attempt per (match, enabled channel) pair — `M` matches across
/// `K` channels give `M * K` delivery attempts, grouped by match in dispatch
/// order, and the orchestrator joins every one before the cycle completes.
pub fn plan_dispatch(manager: &NotificationManager, matches: Vec<ConditionMatch>) -> (attempts:
    Vec<DispatchAttempt>)
    requires
        forall|i: int| 0 <= i < matches@.len() ==> price_wf((#[trigger] matches@[i]).price),
    ensures
        attempts@.len() == matches@.len() * spec_channels(*manager).len(),
        forall|k: int|
            0 <= k < attempts@.len() ==> spec_attempt_for(
                #[trigger] attempts@[k],
                matches@[k / spec_channels(*manager).len() as int].item,
                matches@[k / spec_channels(*manager).len() as int].price,
                matches@[k / spec_channels(*manager).len() as int].condition,
                spec_channels(*manager)[k % spec_channels(*manager).len() as int],
            ),
{
    let ghost all = matches@;
    let ghost kk = spec_channels(*manager).len() as int;
    let mut rest = matches;
    let n = rest.len();
    let mut attempts: Vec<DispatchAttempt> = Vec::new();
    let mut i: usize = 0;
    proof {
        assert(all.skip(0) =~= all);
    }
    while rest.len() > 0
        invariant
            i <= all.len(),
            all.len() == n <= usize::MAX,
            kk == spec_channels(*manager).len(),
            rest@ == all.skip(i as int),
            forall|j: int| 0 <= j < all.len() ==> price_wf((#[trigger] all[j]).price),
            attempts@.len() == i * kk,
            forall|k: int|
                0 <= k < attempts@.len() ==> spec_attempt_for(
                    #[trigger] attempts@[k],
                    all[k / kk].item,
                    all[k / kk].price,
                    all[k / kk].condition,
                    spec_channels(*manager)[k % kk],
                ),
        decreases rest@.len(),
    {
        let m = rest.remove(0);
        proof {
            assert(m == all[i as int]);
            assert(all.skip(i as int).remove(0) =~= all.skip(i + 1));
        }
        let ghost before = attempts@.len() as int;
        let mut chunk = manager.notify(&m.item, &m.price, &m.condition);
        attempts.append(&mut chunk);
        proof {
            assert((i + 1) * kk == i * kk + kk) by (nonlinear_arith);
            if kk > 0 {
                assert forall|k: int| 0 <= k < attempts@.len() implies spec_attempt_for(
                    #[trigger] attempts@[k],
                    all[k / kk].item,
                    all[k / kk].price,
                    all[k / kk].condition,
                    spec_channels(*manager)[k % kk],
                ) by {
                    if k < before {
                    } else {
                        let j = k - before;
                        assert(0 <= j < kk);
                        assert(kk * (i as int) == (i as int) * kk) by (nonlinear_arith);
                        assert(k == kk * (i as int) + j);
                        vstd::arithmetic::div_mod::lemma_div_multiples_vanish_fancy(
                            i as int,
                            j,
                            kk,
                        );
                        vstd::arithmetic::div_mod::lemma_mod_multiples_vanish(i as int, j, kk);
                        vstd::arithmetic::div_mod::lemma_small_mod(j as nat, kk as nat);
                        assert(k / kk == i as int && k % kk == j);
                    }
                }
            }
        }
        i = i + 1;
    }
    proof {
        assert(all.skip(i as int).len() == 0);
        assert(all.take(i as int) =~= all);
    }
    attempts
}

fn build_attempt(
    target: ChannelTarget,
    item: &Item,
    price: &Price,
    cond: &Condition,
    bold_open: &str,
    bold_close: &str,
) -> (a: DispatchAttempt)
    requires
        price_wf(*price),
        bold_open@ == spec_markup_open(target),
        bold_close@ == spec_markup_close(target),
    ensures
        spec_attempt_for(a, *item, *price, *cond, target),
{
    let message = render_message(item, price, cond, bold_open, bold_close);
    let image: Option<String> = if item.image.as_str().unicode_len() == 0 {
        None
    } else {
        Some(item.image.clone())
    };
    DispatchAttempt {
        target,
        description: item.description.clone(),
        catalog_id: item.jan,
        image,
        message,
    }
}

} // verus!

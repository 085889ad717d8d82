//! Translation settings rules: the API endpoint, the built-in prompts and
//! their upgrade, quick shouts, and the decisions taken around each request
//! to the translation API.
use vstd::prelude::*;
use crate::chars::{
    chars_of, contains_chars, first_index_of, last_index_of, find_char, rfind_char, seq_contains,
    string_of, trim_whitespace, trim_ws, trim_end_by, trim_end_class, trim_by, trim_class, CharClass,
    digits_of, spec_digits, ascii_lowercase, to_ascii_lowercase, has_prefix, has_suffix,
    starts_with_chars, ends_with_chars, copy_range, chars_equal,
};

verus! {

pub const DEFAULT_CAPTURE_HOTKEY: &'static str = "CommandOrControl+Shift+T";
pub const MIN_QUICK_SHOUT_FOCUS_DELAY_MS: u64 = 300;
pub const MAX_QUICK_SHOUT_FOCUS_DELAY_MS: u64 = 1200;
pub const DEFAULT_QUICK_SHOUT_FOCUS_DELAY_MS: u64 = 500;
/// Earlier built-in prompts, kept only to recognise and upgrade them.
pub const DEFAULT_INCOMING_PROMPT: &'static str = "你是《绝地潜兵2》跨服聊天 EN→简中助手。只输出最终译文，不要解释/前缀/引号/编号；1条输入只出1条。所有数字、坐标、难度（n1~n10）、武器型号（500kg/120/380/EMS）原样保留，不可改动。";
pub const DEFAULT_OUTGOING_PROMPT: &'static str = "你是《绝地潜兵2》跨服聊天 中→EN 助手。只输出最终英文，不要解释/前缀/引号/编号；1条输入只出1条。所有数字、坐标、难度（n1~n10）、武器型号（500kg/120/380/EMS）原样保留，不可改动。";
pub const REFERENCE_INCOMING_PROMPT: &'static str = r#"你是专为《绝地潜兵2（Helldivers 2）》跨服匹配设计的游戏聊天英译中助手。把国际玩家的英文、缩写和 Gamer Slang 翻成中国玩家能秒懂的简体中文黑话。

核心规则：
1.只译游戏聊天内容，绝不输出解释、前缀、备注或任何多余文字。
2.每条输入输出条数 1:1，不合并、不拆分。
3.语气对等：原文急你就急，原文笑你就笑，原文骂你就骂。禁止强弱化。
4.所有数字、坐标、难度（n1~n10）、武器型号（500kg/120/380/EMS）原样保留，不可改动。
5.术语翻译前先查询下方核心词库；命中任一名称、别名或缩写时，必须使用词库给出的中文玩家叫法或官方回退名。
6.词库未命中时按上下文使用通用中文直译；疑似游戏专有名词且仍无法确定时保留原词，禁止猜测或自造译名。
7.词库查询只用于内部判断，最终不得输出“查词库”“无法确定”等过程说明。

核心词库（英文 -> 中文玩家黑话/官方回退）：
战备武器：EAT/disposable AT=次抛；jump pack/jetpack=跳包；hover pack=飞包；laser rover=激光狗；bullet rover=实弹狗；gas rover=毒狗；hellbomb backpack=核弹背包；WASP=苍蝇拍；arc thrower=电弧/电枪；AT emplacement=轮椅炮；support weapon/3rd slot=三号位；backpack slot=背包位；500kg=500/核弹；orbital napalm=轨道火；HE=高爆；explosive crossbow=弩；eruptor=铳/爆弹枪；breaker incendiary=火喷；grenade pistol=榴弹手枪；breaker=喷子；blitzer/arc shotgun=电喷；scorcher=焦土；ultimatum=核弹手枪；dagger=激光手枪；halt=止息；bushwhacker/triple-barrel=三管喷；thermite=仙女棒；gas grenade=毒雷；impact grenade=摔炮；warbond=债券/通行证；stim/experimental infusion=冰针；railgun=磁小鬼；shield pack=蛋盾；spear=飞矛；recoilless/RR=无后；quasar=类星体；autocannon/AC=机炮；gatling sentry=机枪塔；mortar sentry=迫击炮塔；EMS mortar=EMS迫击炮；anti-materiel rifle=反器材狙；stalwart=手持加特林；orbital gatling=加特林；orbital airburst=空爆；120mm=120；380mm=380；walking barrage=游走；orbital laser=激光洗地；orbital railcannon=电磁炮；orbital precision=精准；orbital gas=毒气；orbital EMS=EMS；eagle strafe=舔地；eagle airstrike=鹰酱/飞机；eagle cluster=集束；eagle napalm=鹰酱火；eagle 110mm=火箭巢；eagle smoke=烟雾；resupply/drop ammo=丢包/叫弹药；reinforce/rez/rein=拉人/复活；shield relay=罩子；hellbomb=炸蛋；HMG emplacement=重机枪。

虫族：terminids/bugs=虫子/东线；scavenger=食腐虫；bile spitter=胆汁喷涌虫；pouncer=扑击虫；hunter=跳虫；shrieker=尖啸虫；warrior=武斗虫；bile warrior=绿武斗；alpha warrior=红武斗；hive guard=盾虫；bile spewer=绿胖；brood commander=虫族指挥官；alpha commander=阿尔法指挥官；stalker=隐刀/隐身虫；charger=牛；charger behemoth=铁牛/超级牛；spore charger=绿牛；impaler=穿刺虫；bile titan/BT=泰坦/BT；dragonroach=蟑龙；hive lord=地龙/大蚯蚓；predator bile hunter=黑蚊子；predator stalker=花蚊子；bug hole=虫洞；bug nest=虫巢；shrieker nest=飞龙巢；stalker lair=隐刀巢；titan hole/nest=泰坦洞。predator=掠食前缀；spore burst=孢子/雾前缀；rupture=钻地前缀。

机器人：automatons/bots=铁疙瘩/西线；trooper=小兵；brawler=刀哥；commissar=政委；rocket raider=火箭兵/RPG；assault raider=喷气兵；marauder=重步兵；MG raider=机枪哥；berserker=锯哥；devastator/dev=炮哥；rocket devastator=火箭哥；heavy devastator=盾哥；scout strider=小双足/侦察鸡；factory strider/ATAT=大蜘蛛；hulk=浩克；hulk obliterator=火箭浩克；hulk scorcher=火浩克；hulk bruiser=炮浩克；war strider=大双足/战争鸡；annihilator tank=大坦；shredder tank=转管坦；barrager tank=导弹坦；tank=铁王八；gunship=炮艇；dropship=空投船；dreadnought=无畏；pyro trooper=火兵；radical=老资历；agitator=赛博官；vox engine=大象；fabricator=出怪口；detector tower=扫描塔；mortar emplacement=迫击炮阵地；stratagem jammer/jammer=干扰塔；anti-air emplacement=防空炮；cannon/bunker turret=炮塔；gunship facility=炮艇工厂。jet brigade=喷气/飞前缀；incineration corps=火/焚烧前缀。

光能者：illuminate/squids=鱿鱼；voteless=小鱼/僵尸；watcher=小飞机；overseer=棍哥；elevated overseer=小飞侠/飞天哥；crescent overseer=新月；fleshmob=拼好人/肉群；harvester/tripod=三足；stingray=鳐鱼；warp ship=曲速船；leviathan=大飞鱼/鲸鱼；overship=大船；veracitor=光能机甲；gatekeeper=重机甲；obtruder=小无人机群；cognitive disruptor=认知干扰器；gazer=凝视者；lightning spire=闪电尖塔；monolith=方尖碑。

战术与情绪：focus/burn it/nuke it=集火/打它；suppress=压住；clear/mop up=清掉；cap/take objective=踩点；fall back/retreat/gtfo/exfil/evac=撤/跑路；push/rush/go go go=冲；flank=绕后；watch left/right=注意左/右；mines here=有雷；buddy door/bunker=双开门；extraction/evac=撤离点；farming samples=刷样本；super/pink samples=粉样本；super credits/SC=超级货币；TK/friendly fire=友伤/黑枪；stuck/bugged=卡住/出Bug；dialing stratagem=搓技能；ragdolled/launched/yeeted=颠勺；diver/player=冻肉；o7=保留 o7；my bad/mb/oops/sry=我的锅/手滑；nice/W/based=牛逼/6/漂亮；fuck/shit/damn/wtf=靠/卧槽/草；F/cooked/GG=寄/翻车了；help/backup=来人；wait/hold up=别急；LFG/let's go=冲。

只输出最终中文译文，不要解释、前缀、引号、编号或术语注释。输入一条只输出一条；不得遗漏具体数字、坐标和难度等级。"#;
pub const REFERENCE_OUTGOING_PROMPT: &'static str = r#"你是专为《绝地潜兵2（Helldivers 2）》跨服匹配设计的游戏聊天中译英助手。把中国玩家的中文和玩家黑话翻成国际玩家能秒懂的简短 Gamer Slang。

核心规则：
1.只译游戏聊天内容，绝不输出解释、前缀、备注或任何多余文字。
2.每条输入输出条数 1:1，不合并、不拆分。
3.语气对等：原文急你就急，原文笑你就笑，原文骂你就骂。禁止强弱化。
4.所有数字、坐标、难度（n1~n10）、武器型号（500kg/120/380/EMS）原样保留，不可改动。
5.术语翻译前先查询下方核心词库；命中任一中文名、玩家黑话或别名时，必须使用词库给出的国际玩家常用英文。
6.词库未命中时按上下文使用简短通用英文；疑似游戏专有名词且仍无法确定时保留原词，禁止逐字硬译或自造英文黑话。
7.词库查询只用于内部判断，最终不得输出“查词库”“无法确定”等过程说明。

核心词库（中文官方名/玩家黑话 -> 英文 Gamer Slang）：
战备武器：次抛/消耗性反坦克=EAT/disposable AT；跳包=jump pack/jetpack；飞包=hover pack；激光狗=laser rover；实弹狗=bullet rover；毒狗=gas rover；核弹背包/地狱火=hellbomb backpack；苍蝇拍=WASP；电弧/电枪=arc thrower；轮椅炮/AT炮=AT emplacement；三号位=support weapon/3rd slot；背包位=backpack slot；500/核弹=500kg；轨道火=orbital napalm；高爆=HE；弩=explosive crossbow；铳/爆弹枪=eruptor；火喷=breaker incendiary；榴弹手枪=grenade pistol；喷子=breaker；电喷=blitzer/arc shotgun；焦土=scorcher；核弹手枪=ultimatum/pocket nuke；激光手枪=dagger；止息=halt；三管喷/三眼喷=bushwhacker/triple-barrel；仙女棒=thermite；毒雷=gas grenade；摔炮=impact grenade；债券/通行证=warbond；冰针=stim/experimental infusion；磁小鬼=railgun；蛋盾/护盾包=shield pack；飞矛/筒子=spear；无后/RR=recoilless/RR；类星体=quasar；机炮=autocannon/AC；机枪塔=gatling sentry；迫击炮塔=mortar sentry；EMS迫击炮=EMS mortar；反器材狙=anti-materiel rifle；手持加特林=stalwart；加特林=orbital gatling；空爆=orbital airburst；120=120mm；380=380mm；游走=walking barrage；激光洗地=orbital laser；电磁炮=orbital railcannon；精准=orbital precision；毒气=orbital gas；EMS=orbital EMS；舔地=eagle strafe；鹰酱/飞机=eagle airstrike；集束=eagle cluster；鹰酱火=eagle napalm；火箭巢=eagle 110mm；烟雾=eagle smoke；丢包/叫弹药=drop ammo/resupply；拉人/复活=rez/rein；罩子=shield relay；炸蛋=hellbomb；重机枪=HMG emplacement。

虫族：虫子/东线=bugs/terminids；食腐虫=scavenger；胆汁喷涌虫=bile spitter；扑击虫=pouncer；跳虫=hunter；尖啸虫=shrieker；武斗虫=warrior；绿武斗=bile warrior；红武斗=alpha warrior；盾虫=hive guard；绿胖=bile spewer；虫族指挥官=brood commander；阿尔法指挥官=alpha commander；隐刀/隐身虫=stalker；牛=charger；铁牛/超级牛=charger behemoth；绿牛=spore charger；穿刺虫=impaler；泰坦/BT=bile titan/BT；蟑龙=dragonroach；地龙/大蚯蚓=hive lord；黑蚊子=predator bile hunter；花蚊子=predator stalker；虫洞=bug hole；虫巢=bug nest；飞龙巢=shrieker nest；隐刀巢=stalker lair；泰坦洞=titan hole/nest。掠食前缀=predator；孢子/雾前缀=spore burst；钻地前缀=rupture。

机器人：铁疙瘩/西线=bots/automatons；小兵=trooper；刀哥=brawler；政委=commissar；火箭兵/RPG=rocket raider；喷气兵=assault raider；重步兵=marauder；机枪哥=MG raider；锯哥=berserker；炮哥/毁灭者=devastator/dev；火箭哥=rocket devastator；盾哥=heavy devastator；小双足/侦察鸡=scout strider；大蜘蛛/ATAT=factory strider/ATAT；浩克=hulk；火箭浩克=hulk obliterator；火浩克=hulk scorcher；炮浩克=hulk bruiser；大双足/战争鸡=war strider；大坦=annihilator tank；转管坦=shredder tank；导弹坦=barrager tank；铁王八=tank；炮艇=gunship；空投船=dropship；无畏=dreadnought；火兵=pyro trooper；老资历=radical；赛博官=agitator；大象=vox engine；出怪口=fabricator；扫描塔=detector tower；迫击炮阵地=mortar emplacement；干扰塔=jammer；防空炮=anti-air emplacement；炮塔=cannon/bunker turret；炮艇工厂=gunship facility。喷气/飞前缀=jet brigade；火/焚烧前缀=incineration corps。

光能者：鱿鱼=illuminate/squids；小鱼/僵尸=voteless；小飞机=watcher；棍哥=overseer；小飞侠/飞天哥=elevated overseer；新月=crescent overseer；拼好人/肉群=fleshmob；三足=harvester/tripod；鳐鱼=stingray；曲速船=warp ship；大飞鱼/鲸鱼=leviathan；大船=overship；光能机甲=veracitor；重机甲=gatekeeper；小无人机群=obtruder；认知干扰器=cognitive disruptor；凝视者=gazer；闪电尖塔=lightning spire；方尖碑=monolith。

战术与情绪：集火/打它=focus/burn it/nuke it；压住=suppress；清掉=clear/mop up；踩点/占点=cap/take objective；拉我/救我=rez/pick me up；撤/跑路=fall back/gtfo/evac；冲/速推=push/rush/go go go；绕后=flank；注意左/右=watch left/right；有雷=mines here；双开门/堡垒=buddy door/bunker；撤离点=extraction/evac；刷样本=farming samples；粉样本=super/pink samples；超级货币=SC；友伤/黑枪=TK/friendly fire；卡住/出Bug=stuck/bugged；搓技能=dialing stratagem；颠勺/被打飞=ragdolled/yeeted；冻肉=diver；o7=原样保留 o7；我的锅/手滑=my bad/mb/oops；牛逼/6/漂亮=nice/W/based；靠/卧槽/草=fuck/shit/damn/wtf；寄/翻车了=F/cooked/GG；来人=help/need backup；别急=wait/hold up；冲/开搞=LFG/let's go；为了超级地球=For Super Earth!；汗流浃背=sweating rn/sweaty af。

示例：请帮我扔个补给 -> drop ammo；起个轮椅炮 -> drop AT emplacement；给我递个铳 -> pass the eruptor；被颠勺了 -> got ragdolled。

只输出最终英文，不要解释、前缀、引号、编号或术语注释。输入一条只输出一条；不得遗漏具体数字、坐标和难度等级。"#;
/// System prompt of the connection test.
pub const TEST_SYSTEM_PROMPT: &'static str = "Reply with exactly OK";

// ---------------------------------------------------------------------------
// Quick shouts

/// A canned chat message sent with one hotkey.
#[derive(Debug, Clone, PartialEq, Eq)]
pub struct QuickShout {
    pub label: String,
    pub message: String,
    pub hotkey: String,
}

impl View for QuickShout {
    type V = (Seq<char>, Seq<char>, Seq<char>);

    open spec fn view(&self) -> (Seq<char>, Seq<char>, Seq<char>) {
        (self.label@, self.message@, self.hotkey@)
    }
}

pub open spec fn shouts_view(v: Seq<QuickShout>) -> Seq<(Seq<char>, Seq<char>, Seq<char>)> {
    Seq::new(v.len(), |i: int| v[i]@)
}

/// The quick shouts a new installation starts with.
pub open spec fn spec_default_quick_shouts() -> Seq<(Seq<char>, Seq<char>, Seq<char>)> {
    seq![
        ("跟我走"@, "follow me"@, "CommandOrControl+Alt+1"@),
        ("需要支援"@, "need backup!"@, "CommandOrControl+Alt+2"@),
        ("丢补给"@, "drop supplies"@, "CommandOrControl+Alt+3"@),
        ("撤退"@, "fall back!"@, "CommandOrControl+Alt+4"@),
        ("等一下"@, "hold up"@, "CommandOrControl+Alt+5"@),
        ("我的锅"@, "my bad"@, "CommandOrControl+Alt+6"@),
        ("漂亮"@, "nice!"@, "CommandOrControl+Alt+7"@),
        ("为了超级地球"@, "For Super Earth!"@, "CommandOrControl+Alt+8"@),
    ]
}

fn shout(label: &str, message: &str, hotkey: &str) -> (r: QuickShout)
    ensures
        r@ == (label@, message@, hotkey@),
{
    QuickShout {
        label: string_of(chars_of(label).as_slice()),
        message: string_of(chars_of(message).as_slice()),
        hotkey: string_of(chars_of(hotkey).as_slice()),
    }
}

pub fn default_quick_shouts() -> (r: Vec<QuickShout>)
    ensures
        shouts_view(r@) == spec_default_quick_shouts(),
{
    let mut r: Vec<QuickShout> = Vec::new();
    r.push(shout("跟我走", "follow me", "CommandOrControl+Alt+1"));
    r.push(shout("需要支援", "need backup!", "CommandOrControl+Alt+2"));
    r.push(shout("丢补给", "drop supplies", "CommandOrControl+Alt+3"));
    r.push(shout("撤退", "fall back!", "CommandOrControl+Alt+4"));
    r.push(shout("等一下", "hold up", "CommandOrControl+Alt+5"));
    r.push(shout("我的锅", "my bad", "CommandOrControl+Alt+6"));
    r.push(shout("漂亮", "nice!", "CommandOrControl+Alt+7"));
    r.push(shout("为了超级地球", "For Super Earth!", "CommandOrControl+Alt+8"));
    assert(shouts_view(r@) =~= spec_default_quick_shouts());
    r
}

pub fn default_quick_shout_focus_delay_ms() -> (r: u64)
    ensures
        r == DEFAULT_QUICK_SHOUT_FOCUS_DELAY_MS,
{
    DEFAULT_QUICK_SHOUT_FOCUS_DELAY_MS
}

/// The focus delay of a quick shout kept within 300..=1200 ms.
pub fn clamp_quick_shout_focus_delay_ms(value: u64) -> (r: u64)
    ensures
        r == (if value < MIN_QUICK_SHOUT_FOCUS_DELAY_MS {
            MIN_QUICK_SHOUT_FOCUS_DELAY_MS
        } else if value > MAX_QUICK_SHOUT_FOCUS_DELAY_MS {
            MAX_QUICK_SHOUT_FOCUS_DELAY_MS
        } else {
            value
        }),
{
    if value < MIN_QUICK_SHOUT_FOCUS_DELAY_MS {
        MIN_QUICK_SHOUT_FOCUS_DELAY_MS
    } else if value > MAX_QUICK_SHOUT_FOCUS_DELAY_MS {
        MAX_QUICK_SHOUT_FOCUS_DELAY_MS
    } else {
        value
    }
}

/// Clamping is idempotent and always lands in the supported range.
pub proof fn lemma_clamp_in_range(value: u64)
    ensures
        ({
            let c = if value < MIN_QUICK_SHOUT_FOCUS_DELAY_MS {
                MIN_QUICK_SHOUT_FOCUS_DELAY_MS
            } else if value > MAX_QUICK_SHOUT_FOCUS_DELAY_MS {
                MAX_QUICK_SHOUT_FOCUS_DELAY_MS
            } else {
                value
            };
            MIN_QUICK_SHOUT_FOCUS_DELAY_MS <= c <= MAX_QUICK_SHOUT_FOCUS_DELAY_MS
        }),
{
}

/// The first `n` characters of `s`.
pub open spec fn take_chars(s: Seq<char>, n: int) -> Seq<char> {
    if s.len() <= n {
        s
    } else {
        s.take(n)
    }
}

/// Saved quick shouts: the first 12, labels trimmed to 24 characters and
/// messages to 100, hotkeys trimmed, shouts without label or message dropped.
pub open spec fn sanitized_shouts(shouts: Seq<(Seq<char>, Seq<char>, Seq<char>)>, k: int) -> Seq<(Seq<char>, Seq<char>, Seq<char>)>
    decreases k,
{
    if k <= 0 || k > shouts.len() {
        Seq::empty()
    } else {
        let rest = sanitized_shouts(shouts, k - 1);
        let (label, message, hotkey) = shouts[k - 1];
        let l = take_chars(trim_ws(label), 24);
        let m = take_chars(trim_ws(message), 100);
        if l.len() == 0 || m.len() == 0 {
            rest
        } else {
            rest.push((l, m, trim_ws(hotkey)))
        }
    }
}

pub open spec fn spec_sanitize_quick_shouts(shouts: Seq<(Seq<char>, Seq<char>, Seq<char>)>) -> Seq<(Seq<char>, Seq<char>, Seq<char>)> {
    sanitized_shouts(shouts, if shouts.len() <= 12 {
        shouts.len() as int
    } else {
        12
    })
}

fn take_trimmed(s: &str, n: usize) -> (r: Vec<char>)
    ensures
        r@ == take_chars(trim_ws(s@), n as int),
{
    let cs = chars_of(s);
    let t = trim_whitespace(cs.as_slice());
    if t.len() <= n {
        t
    } else {
        let r = copy_range(t.as_slice(), 0, n);
        assert(r@ =~= t@.take(n as int));
        r
    }
}

pub fn sanitize_quick_shouts(shouts: &[QuickShout]) -> (r: Vec<QuickShout>)
    ensures
        shouts_view(r@) == spec_sanitize_quick_shouts(shouts_view(shouts@)),
{
    let ghost sv = shouts_view(shouts@);
    let limit = if shouts.len() <= 12 {
        shouts.len()
    } else {
        12
    };
    let mut out: Vec<QuickShout> = Vec::new();
    let mut k: usize = 0;
    while k < limit
        invariant
            sv == shouts_view(shouts@),
            limit <= shouts@.len(),
            k <= limit,
            shouts_view(out@) == sanitized_shouts(sv, k as int),
        decreases limit - k,
    {
        let s = &shouts[k];
        assert(sv[k as int] == s@);
        let label = take_trimmed(s.label.as_str(), 24);
        let message = take_trimmed(s.message.as_str(), 100);
        if label.len() > 0 && message.len() > 0 {
            let hotkey = trim_whitespace(chars_of(s.hotkey.as_str()).as_slice());
            let ghost before = out@;
            out.push(QuickShout { label: string_of(label.as_slice()), message: string_of(message.as_slice()), hotkey: string_of(hotkey.as_slice()) });
            assert(shouts_view(out@) =~= shouts_view(before).push((label@, message@, hotkey@)));
        }
        k = k + 1;
    }
    out
}

// ---------------------------------------------------------------------------
// Errors and the API endpoint

/// What went wrong with the translation settings or a request.
#[derive(Debug, Clone, PartialEq, Eq)]
pub enum TranslationError {
    MissingApiUrl,
    InvalidApiUrl,
    InvalidProxy,
    MissingModel,
    InvalidRegion,
    Request(String),
    Response(String),
    Storage(String),
}

/// The view of an error: its variant index and its message, if any.
pub open spec fn error_view(e: TranslationError) -> (int, Seq<char>) {
    match e {
        TranslationError::MissingApiUrl => (0, Seq::empty()),
        TranslationError::InvalidApiUrl => (1, Seq::empty()),
        TranslationError::InvalidProxy => (2, Seq::empty()),
        TranslationError::MissingModel => (3, Seq::empty()),
        TranslationError::InvalidRegion => (4, Seq::empty()),
        TranslationError::Request(m) => (5, m@),
        TranslationError::Response(m) => (6, m@),
        TranslationError::Storage(m) => (7, m@),
    }
}

/// A chat line with its translation.
#[derive(Debug, Clone, PartialEq, Eq)]
pub struct TranslatedChatLine {
    pub speaker: String,
    pub original_message: String,
    pub translated_message: String,
}

/// The configured API address trimmed of blanks and trailing slashes.
pub open spec fn trimmed_api_url(raw: Seq<char>) -> Seq<char> {
    trim_end_by(trim_ws(raw), CharClass::Slash)
}

/// The chat-completions endpoint of an OpenAI-compatible API address, or
/// why the address is unusable.
pub open spec fn spec_normalize_url(raw: Seq<char>) -> Result<Seq<char>, (int, Seq<char>)> {
    let t = trimmed_api_url(raw);
    if !(has_prefix(t, "http://"@) || has_prefix(t, "https://"@)) {
        if t.len() == 0 {
            Err(error_view(TranslationError::MissingApiUrl))
        } else {
            Err(error_view(TranslationError::InvalidApiUrl))
        }
    } else if has_suffix(t, "/chat/completions"@) {
        Ok(t)
    } else {
        Ok(t + "/chat/completions"@)
    }
}

proof fn lemma_trimmed_url_keeps(u: Seq<char>)
    requires
        u.len() > 0,
        !crate::chars::spec_is_whitespace(u[0]),
        !crate::chars::spec_is_whitespace(u[u.len() - 1]),
        u[u.len() - 1] != '/',
    ensures
        trimmed_api_url(u) == u,
{
    assert(crate::chars::first_outside(u, CharClass::Whitespace, 0) == 0);
    assert(u.skip(0) =~= u);
    assert(crate::chars::last_outside_end(u, CharClass::Whitespace, u.len() as int) == u.len());
    assert(u.take(u.len() as int) =~= u);
    assert(crate::chars::last_outside_end(u, CharClass::Slash, u.len() as int) == u.len());
}

/// An endpoint that normalization produced normalizes to itself.
pub proof fn lemma_normalized_url_is_stable(raw: Seq<char>)
    ensures
        spec_normalize_url(raw) matches Ok(u) ==> spec_normalize_url(u) == Ok::<Seq<char>, (int, Seq<char>)>(u),
{
    if let Ok(u) = spec_normalize_url(raw) {
        reveal_strlit("http://");
        reveal_strlit("https://");
        reveal_strlit("/chat/completions");
        let t = trimmed_api_url(raw);
        let suffix = "/chat/completions"@;
        assert(u[0] == t[0]) by {
            if !has_suffix(t, suffix) {
                assert((t + suffix)[0] == t[0]);
            }
        }
        assert(t.subrange(0, 1)[0] == t[0]);
        assert(u[u.len() - 1] == 's') by {
            if has_suffix(t, suffix) {
                assert(t.subrange(t.len() - suffix.len(), t.len() as int)[suffix.len() - 1] == t[t.len() - 1]);
            } else {
                assert((t + suffix)[(t + suffix).len() - 1] == suffix[suffix.len() - 1]);
            }
        }
        lemma_trimmed_url_keeps(u);
        if !has_suffix(t, suffix) {
            let v = t + suffix;
            assert(v.subrange(v.len() - suffix.len(), v.len() as int) =~= suffix);
            if has_prefix(t, "http://"@) {
                assert(v.subrange(0, 7) =~= t.subrange(0, 7));
            } else {
                assert(v.subrange(0, 8) =~= t.subrange(0, 8));
            }
        }
    }
}

pub open spec fn result_view(r: Result<String, TranslationError>) -> Result<Seq<char>, (int, Seq<char>)> {
    match r {
        Ok(s) => Ok(s@),
        Err(e) => Err(error_view(e)),
    }
}

fn str_chars(s: &str) -> (r: Vec<char>)
    ensures
        r@ == s@,
{
    chars_of(s)
}

pub fn normalize_chat_completions_url(raw: &str) -> (r: Result<String, TranslationError>)
    ensures
        result_view(r) == spec_normalize_url(raw@),
{
    let cs = chars_of(raw);
    let t0 = trim_whitespace(cs.as_slice());
    let t = trim_end_class(t0.as_slice(), CharClass::Slash);
    let http = str_chars("http://");
    let https = str_chars("https://");
    if !(starts_with_chars(t.as_slice(), http.as_slice()) || starts_with_chars(t.as_slice(), https.as_slice())) {
        if t.len() == 0 {
            return Err(TranslationError::MissingApiUrl);
        } else {
            return Err(TranslationError::InvalidApiUrl);
        }
    }
    let suffix = str_chars("/chat/completions");
    if ends_with_chars(t.as_slice(), suffix.as_slice()) {
        Ok(string_of(t.as_slice()))
    } else {
        let mut out = t;
        let mut i: usize = 0;
        let ghost head = out@;
        while i < suffix.len()
            invariant
                i <= suffix@.len(),
                out@ == head + suffix@.take(i as int),
            decreases suffix.len() - i,
        {
            out.push(suffix[i]);
            assert(head + suffix@.take(i + 1) =~= (head + suffix@.take(i as int)).push(suffix@[i as int]));
            i = i + 1;
        }
        assert(suffix@.take(suffix@.len() as int) =~= suffix@);
        Ok(string_of(out.as_slice()))
    }
}

/// Whether `reqwest::Proxy::all` accepts the text as a proxy URL.
pub uninterp spec fn proxy_accepted(url: Seq<char>) -> bool;

/// `reqwest::Proxy::all`: parses the text as a URL (retrying with an
/// `http://` prefix when it has no scheme); a function of the text alone.
#[verifier::external_body]
fn proxy_url_accepted(url: &str) -> (r: bool)
    ensures
        r == proxy_accepted(url@),
{
    reqwest::Proxy::all(url).is_ok()
}

/// The settings a translation request needs: a usable API address, a
/// model, and a proxy that `proxy_ok` says is accepted, when one is set.
pub open spec fn spec_validate_settings(
    api_url: Seq<char>,
    model: Seq<char>,
    proxy_url: Seq<char>,
    proxy_ok: bool,
) -> Result<(), (int, Seq<char>)> {
    match spec_normalize_url(api_url) {
        Err(e) => Err(e),
        Ok(_) => if trim_ws(model).len() == 0 {
            Err(error_view(TranslationError::MissingModel))
        } else if trim_ws(proxy_url).len() > 0 && !proxy_ok {
            Err(error_view(TranslationError::InvalidProxy))
        } else {
            Ok(())
        },
    }
}

pub open spec fn unit_result_view(r: Result<(), TranslationError>) -> Result<(), (int, Seq<char>)> {
    match r {
        Ok(()) => Ok(()),
        Err(e) => Err(error_view(e)),
    }
}

/// Validation once the proxy verdict is known.
pub fn validate_settings_with_proxy(api_url: &str, model: &str, proxy_url: &str, proxy_ok: bool) -> (r: Result<(), TranslationError>)
    ensures
        unit_result_view(r) == spec_validate_settings(api_url@, model@, proxy_url@, proxy_ok),
{
    match normalize_chat_completions_url(api_url) {
        Err(e) => {
            return Err(e);
        },
        Ok(_) => {},
    }
    let m = trim_whitespace(chars_of(model).as_slice());
    if m.len() == 0 {
        return Err(TranslationError::MissingModel);
    }
    let p = trim_whitespace(chars_of(proxy_url).as_slice());
    if p.len() > 0 && !proxy_ok {
        return Err(TranslationError::InvalidProxy);
    }
    Ok(())
}

/// Checks the connection settings: the address, the model and (through
/// reqwest) the proxy. The capture region is checked by the caller.
pub fn validate_settings(api_url: &str, model: &str, proxy_url: &str) -> (r: Result<(), TranslationError>)
    ensures
        unit_result_view(r) == spec_validate_settings(api_url@, model@, proxy_url@, proxy_accepted(trim_ws(proxy_url@))),
{
    let p = trim_whitespace(chars_of(proxy_url).as_slice());
    let proxy_ok = if p.len() > 0 {
        let trimmed = string_of(p.as_slice());
        proxy_url_accepted(trimmed.as_str())
    } else {
        true
    };
    validate_settings_with_proxy(api_url, model, proxy_url, proxy_ok)
}

// ---------------------------------------------------------------------------
// Prompts

/// The configured prompt, trimmed, or the fallback when it is blank.
pub open spec fn spec_configured_prompt(configured: Seq<char>, fallback: Seq<char>) -> Seq<char> {
    if trim_ws(configured).len() == 0 {
        fallback
    } else {
        trim_ws(configured)
    }
}

pub fn configured_prompt(configured: &str, fallback: &str) -> (r: String)
    ensures
        r@ == spec_configured_prompt(configured@, fallback@),
{
    let t = trim_whitespace(chars_of(configured).as_slice());
    if t.len() == 0 {
        string_of(chars_of(fallback).as_slice())
    } else {
        string_of(t.as_slice())
    }
}

/// A saved prompt that predates the current built-in ones (or is blank)
/// and is upgraded; any prompt the user wrote is kept.
pub open spec fn spec_is_stale_default_prompt(value: Seq<char>) -> bool {
    let t = trim_ws(value);
    if t.len() == 0 {
        true
    } else if t == REFERENCE_INCOMING_PROMPT@ || t == REFERENCE_OUTGOING_PROMPT@ {
        false
    } else if t == DEFAULT_INCOMING_PROMPT@ || t == DEFAULT_OUTGOING_PROMPT@ {
        true
    } else {
        ||| has_prefix(t, "You are a HELLDIVERS 2 in-game chat translator."@)
        ||| has_prefix(t, "HD2跨服聊天 EN→简中。"@)
        ||| has_prefix(t, "HD2跨服聊天 中→EN。"@)
        ||| (has_prefix(t, "你是《绝地潜兵2》跨服聊天"@) && t.len() + 40 < DEFAULT_INCOMING_PROMPT@.len())
    }
}

fn same_text(a: &[char], b: &str) -> (r: bool)
    ensures
        r == (a@ == b@),
{
    let bc = chars_of(b);
    crate::chars::chars_equal(a, bc.as_slice())
}

fn text_starts_with(a: &[char], b: &str) -> (r: bool)
    ensures
        r == has_prefix(a@, b@),
{
    let bc = chars_of(b);
    starts_with_chars(a, bc.as_slice())
}

pub fn is_stale_default_prompt(value: &str) -> (r: bool)
    ensures
        r == spec_is_stale_default_prompt(value@),
{
    let t = trim_whitespace(chars_of(value).as_slice());
    if t.len() == 0 {
        return true;
    }
    if same_text(t.as_slice(), REFERENCE_INCOMING_PROMPT) || same_text(t.as_slice(), REFERENCE_OUTGOING_PROMPT) {
        return false;
    }
    if same_text(t.as_slice(), DEFAULT_INCOMING_PROMPT) || same_text(t.as_slice(), DEFAULT_OUTGOING_PROMPT) {
        return true;
    }
    let default_length = chars_of(DEFAULT_INCOMING_PROMPT).len();
    let limit = if default_length >= 40 {
        default_length - 40
    } else {
        0
    };
    text_starts_with(t.as_slice(), "You are a HELLDIVERS 2 in-game chat translator.")
        || text_starts_with(t.as_slice(), "HD2跨服聊天 EN→简中。")
        || text_starts_with(t.as_slice(), "HD2跨服聊天 中→EN。")
        || (text_starts_with(t.as_slice(), "你是《绝地潜兵2》跨服聊天") && t.len() < limit)
}

/// Replaces stale built-in prompts with the current reference prompts.
pub fn refresh_stale_default_prompts(incoming_prompt: &mut String, outgoing_prompt: &mut String)
    ensures
        final(incoming_prompt)@ == (if spec_is_stale_default_prompt(old(incoming_prompt)@) {
            REFERENCE_INCOMING_PROMPT@
        } else {
            old(incoming_prompt)@
        }),
        final(outgoing_prompt)@ == (if spec_is_stale_default_prompt(old(outgoing_prompt)@) {
            REFERENCE_OUTGOING_PROMPT@
        } else {
            old(outgoing_prompt)@
        }),
{
    if is_stale_default_prompt(incoming_prompt.as_str()) {
        *incoming_prompt = string_of(chars_of(REFERENCE_INCOMING_PROMPT).as_slice());
    }
    if is_stale_default_prompt(outgoing_prompt.as_str()) {
        *outgoing_prompt = string_of(chars_of(REFERENCE_OUTGOING_PROMPT).as_slice());
    }
}

// ---------------------------------------------------------------------------
// Model replies

/// The text from the first `[` to the last `]`, when the last comes after
/// the first.
pub open spec fn spec_extract_json_array(value: Seq<char>) -> Option<Seq<char>> {
    match first_index_of(value, '[', 0) {
        None => None,
        Some(start) => match last_index_of(value, ']', value.len() as int) {
            None => None,
            Some(end) => if end >= start {
                Some(value.subrange(start, end + 1))
            } else {
                None
            },
        },
    }
}

pub fn extract_json_array(value: &str) -> (r: Option<String>)
    ensures
        match spec_extract_json_array(value@) {
            None => r is None,
            Some(s) => r is Some && r->0@ == s,
        },
{
    let cs = chars_of(value);
    let start = match find_char(cs.as_slice(), '[') {
        Some(i) => i,
        None => {
            return None;
        },
    };
    let end = match rfind_char(cs.as_slice(), ']') {
        Some(j) => j,
        None => {
            return None;
        },
    };
    let n = cs.len();
    assert(end < n);
    if end >= start {
        let part = copy_range(cs.as_slice(), start, end + 1);
        Some(string_of(part.as_slice()))
    } else {
        None
    }
}

/// A model reply as the translated line: trimmed, surrounding double quotes
/// removed; an empty reply is an error.
pub open spec fn spec_clean_translation(reply: Seq<char>) -> Option<Seq<char>> {
    let t = trim_by(trim_ws(reply), CharClass::Quote);
    if t.len() == 0 {
        None
    } else {
        Some(t)
    }
}

pub fn clean_translation(reply: &str) -> (r: Result<String, TranslationError>)
    ensures
        match spec_clean_translation(reply@) {
            None => r is Err && error_view(r->Err_0) == (6int, "聊天翻译返回了空结果"@),
            Some(t) => r is Ok && r->Ok_0@ == t,
        },
{
    let t0 = trim_whitespace(chars_of(reply).as_slice());
    let t = trim_class(t0.as_slice(), CharClass::Quote);
    if t.len() == 0 {
        let message = string_of(chars_of("聊天翻译返回了空结果").as_slice());
        return Err(TranslationError::Response(message));
    }
    Ok(string_of(t.as_slice()))
}

/// What `String::from_utf8_lossy` decodes a body to.
pub uninterp spec fn utf8_lossy(bytes: Seq<u8>) -> Seq<char>;

/// `String::from_utf8_lossy` from std: valid UTF-8 decoded, every invalid
/// sequence replaced by U+FFFD; stated here only for all-ASCII input, which
/// decodes byte for byte.
#[verifier::external_body]
fn decode_utf8_lossy(bytes: &[u8]) -> (r: Vec<char>)
    ensures
        r@ == utf8_lossy(bytes@),
        (forall|i: int| 0 <= i < bytes@.len() ==> bytes@[i] < 0x80) ==> r@ == Seq::new(
            bytes@.len(),
            |i: int| bytes@[i] as char,
        ),
{
    String::from_utf8_lossy(bytes).chars().collect()
}

/// Unicode general category Cc, which `char::is_control` tests.
pub open spec fn is_control(c: char) -> bool {
    (c as u32) <= 0x1F || (0x7F <= (c as u32) && (c as u32) <= 0x9F)
}

/// The characters a response summary keeps: no control characters except
/// white space.
pub open spec fn summary_chars(s: Seq<char>) -> Seq<char> {
    s.filter(|c: char| !is_control(c) || crate::chars::spec_is_whitespace(c))
}

/// A short printable summary of a response body: decoded leniently, control
/// characters dropped, at most `maximum_chars` characters, trimmed.
pub open spec fn spec_response_body_summary(body: Seq<u8>, maximum_chars: int) -> Seq<char> {
    trim_ws(take_chars(summary_chars(utf8_lossy(body)), maximum_chars))
}

pub fn response_body_summary(body: &[u8], maximum_chars: usize) -> (r: String)
    ensures
        r@ == spec_response_body_summary(body@, maximum_chars as int),
{
    let decoded = decode_utf8_lossy(body);
    let mut kept: Vec<char> = Vec::new();
    let mut i: usize = 0;
    while i < decoded.len()
        invariant
            i <= decoded@.len(),
            kept@ == summary_chars(decoded@.take(i as int)),
        decreases decoded.len() - i,
    {
        proof {
            reveal(Seq::filter);
            assert(decoded@.take(i + 1).drop_last() =~= decoded@.take(i as int));
        }
        let c = decoded[i];
        let v = c as u32;
        let control = v <= 0x1F || (0x7F <= v && v <= 0x9F);
        if !control || crate::chars::is_whitespace(c) {
            kept.push(c);
        }
        i = i + 1;
    }
    assert(decoded@.take(decoded@.len() as int) =~= decoded@);
    let taken = if kept.len() <= maximum_chars {
        kept
    } else {
        let t = copy_range(kept.as_slice(), 0, maximum_chars);
        assert(t@ =~= kept@.take(maximum_chars as int));
        t
    };
    let trimmed = trim_whitespace(taken.as_slice());
    string_of(trimmed.as_slice())
}

// ---------------------------------------------------------------------------
// Chat key setting

/// The chat key to save and whether only the numpad Enter counts:
/// `NumpadEnter` is saved as `Enter` with the numpad-only flag; an
/// unsupported key keeps the current one; the flag only applies to Enter.
pub open spec fn spec_normalize_chat_key(requested: Seq<char>, numpad_only: bool, current: Seq<char>) -> (Seq<char>, bool) {
    let t = trim_ws(requested);
    let key = if t == "NumpadEnter"@ {
        "Enter"@
    } else {
        t
    };
    let saved = if crate::monitor::spec_virtual_key_for_code(key) is Some {
        key
    } else {
        current
    };
    (saved, (numpad_only || t == "NumpadEnter"@) && key == "Enter"@)
}

pub fn normalize_chat_key(requested: &str, numpad_only: bool, current: &str) -> (r: (String, bool))
    ensures
        (r.0@, r.1) == spec_normalize_chat_key(requested@, numpad_only, current@),
{
    let t = trim_whitespace(chars_of(requested).as_slice());
    let numpad = same_text(t.as_slice(), "NumpadEnter");
    let key = if numpad {
        string_of(chars_of("Enter").as_slice())
    } else {
        string_of(t.as_slice())
    };
    let is_enter = same_text(chars_of(key.as_str()).as_slice(), "Enter");
    let saved = if crate::monitor::is_supported_chat_key(key.as_str()) {
        key
    } else {
        string_of(chars_of(current).as_slice())
    };
    (saved, (numpad_only || numpad) && is_enter)
}

// ---------------------------------------------------------------------------
// One translation request

fn push_text(out: &mut Vec<char>, s: &str)
    ensures
        final(out)@ == old(out)@ + s@,
{
    let cs = chars_of(s);
    push_chars(out, cs.as_slice());
}

fn push_chars(out: &mut Vec<char>, s: &[char])
    ensures
        final(out)@ == old(out)@ + s@,
{
    let mut i: usize = 0;
    while i < s.len()
        invariant
            i <= s@.len(),
            out@ == old(out)@ + s@.take(i as int),
        decreases s.len() - i,
    {
        out.push(s[i]);
        assert(old(out)@ + s@.take(i + 1) =~= (old(out)@ + s@.take(i as int)).push(s@[i as int]));
        i = i + 1;
    }
    assert(s@.take(s@.len() as int) =~= s@);
}

fn push_decimal(out: &mut Vec<char>, n: u64)
    ensures
        final(out)@ == old(out)@ + spec_digits(n as nat, 10),
{
    let d = digits_of(n, 10);
    push_chars(out, d.as_slice());
}

/// Status codes that may mean the API refused the thinking switch.
pub open spec fn mentions_thinking_switch(summary: Seq<char>) -> bool {
    let lower = ascii_lowercase(summary);
    ||| seq_contains(lower, "thinking"@)
    ||| seq_contains(lower, "enable_thinking"@)
    ||| seq_contains(lower, "unknown field"@)
    ||| seq_contains(lower, "unrecognized"@)
}

/// The message of a failed HTTP status.
pub open spec fn http_error_message(status: u16, summary: Seq<char>) -> Seq<char> {
    "HTTP "@ + spec_digits(status as nat, 10) + ": "@ + summary
}

/// The message when the model produced no final content.
pub open spec fn no_content_message(finish_reason: Option<Seq<char>>, reasoning_chars: usize, max_tokens: u32) -> Seq<char> {
    let reason = match finish_reason {
        Some(r) => r,
        None => "unknown"@,
    };
    "翻译模型未返回最终 content（finish_reason="@ + reason + "，reasoning_chars="@ + spec_digits(
        reasoning_chars as nat,
        10,
    ) + "，max_tokens="@ + spec_digits(max_tokens as nat, 10)
        + "）。当前模型可能强制开启思考模式，请改用非推理/Flash 模型以获得实时翻译。"@
}

/// What to do after the API answered with a failure status.
#[derive(Debug, Clone, PartialEq, Eq)]
pub enum HttpFailureAction {
    /// Send the request again without the thinking switch.
    RetryWithoutThinkingSwitch,
    /// Give up with this error.
    Fail(TranslationError),
}

/// What to do with a parsed reply.
#[derive(Debug, Clone, PartialEq, Eq)]
pub enum ReplyAction {
    /// The translation.
    Done(String),
    /// Ask again with the larger output budget.
    RetryWithLargerBudget,
    /// Give up with this error.
    Fail(TranslationError),
}

/// The token budget and options of one translation: the output budget, the
/// attempt number, how many attempts are allowed, and whether the request
/// still carries the switch that turns model thinking off.
#[derive(Debug)]
pub struct TokenBudget {
    max_tokens: u32,
    attempt: u32,
    attempts: u32,
    thinking_switch: bool,
}

impl View for TokenBudget {
    type V = (u32, u32, u32, bool);

    closed spec fn view(&self) -> (u32, u32, u32, bool) {
        (self.max_tokens, self.attempt, self.attempts, self.thinking_switch)
    }
}

/// The budget after a reply cut off by length: doubled, at most 512.
pub open spec fn grown_budget(max_tokens: u32) -> u32 {
    if max_tokens as int * 2 >= 512 {
        512
    } else {
        (max_tokens * 2) as u32
    }
}

impl TokenBudget {
    /// A request allowed `max_tokens` output tokens (at least 16), and a
    /// second attempt when `allow_budget_retry`.
    pub fn new(max_tokens: u32, allow_budget_retry: bool) -> (r: Self)
        ensures
            r@ == (if max_tokens >= 16 {
                max_tokens
            } else {
                16u32
            }, 1u32, if allow_budget_retry {
                2u32
            } else {
                1u32
            }, true),
    {
        TokenBudget {
            max_tokens: if max_tokens >= 16 {
                max_tokens
            } else {
                16
            },
            attempt: 1,
            attempts: if allow_budget_retry {
                2
            } else {
                1
            },
            thinking_switch: true,
        }
    }

    pub fn max_tokens(&self) -> (r: u32)
        ensures
            r == self@.0,
    {
        self.max_tokens
    }

    pub fn include_thinking_switch(&self) -> (r: bool)
        ensures
            r == self@.3,
    {
        self.thinking_switch
    }

    /// After a failure status: drop the thinking switch once when the API
    /// seems to reject it (400 or 422 naming it), otherwise fail.
    pub fn on_http_failure(&mut self, status: u16, summary: &str) -> (r: HttpFailureAction)
        ensures
            if old(self)@.3 && (status == 400 || status == 422) && mentions_thinking_switch(summary@) {
                r == HttpFailureAction::RetryWithoutThinkingSwitch && final(self)@ == (
                    old(self)@.0,
                    old(self)@.1,
                    old(self)@.2,
                    false,
                )
            } else {
                final(self)@ == old(self)@ && r is Fail && error_view(r->Fail_0) == (
                    6int,
                    http_error_message(status, summary@),
                )
            },
    {
        let lower = to_ascii_lowercase(chars_of(summary).as_slice());
        let mentions = contains_chars(lower.as_slice(), str_chars("thinking").as_slice())
            || contains_chars(lower.as_slice(), str_chars("enable_thinking").as_slice())
            || contains_chars(lower.as_slice(), str_chars("unknown field").as_slice())
            || contains_chars(lower.as_slice(), str_chars("unrecognized").as_slice());
        if self.thinking_switch && (status == 400 || status == 422) && mentions {
            self.thinking_switch = false;
            return HttpFailureAction::RetryWithoutThinkingSwitch;
        }
        let mut message: Vec<char> = Vec::new();
        push_text(&mut message, "HTTP ");
        push_decimal(&mut message, status as u64);
        push_text(&mut message, ": ");
        push_text(&mut message, summary);
        HttpFailureAction::Fail(TranslationError::Response(string_of(message.as_slice())))
    }

    /// After a parsed reply: its trimmed content when there is some; a second
    /// attempt with a doubled budget (at most 512), which sends the thinking
    /// switch again, when the first was cut off by length and retrying is
    /// allowed; otherwise a failure.
    pub fn on_reply(&mut self, content: Option<&str>, finish_reason: Option<&str>, reasoning_chars: usize) -> (r: ReplyAction)
        ensures
            match content {
                Some(c) if trim_ws(c@).len() > 0 => final(self)@ == old(self)@ && r is Done && r->Done_0@ == trim_ws(c@),
                _ => if old(self)@.2 == 2 && old(self)@.1 == 1 && (finish_reason matches Some(f) && f@ == "length"@) {
                    r == ReplyAction::RetryWithLargerBudget && final(self)@ == (
                        grown_budget(old(self)@.0),
                        2u32,
                        old(self)@.2,
                        true,
                    )
                } else {
                    final(self)@ == old(self)@ && r is Fail && error_view(r->Fail_0) == (
                        6int,
                        no_content_message(
                            match finish_reason {
                                Some(f) => Some(f@),
                                None => None,
                            },
                            reasoning_chars,
                            old(self)@.0,
                        ),
                    )
                },
            },
    {
        match content {
            Some(c) => {
                let t = trim_whitespace(chars_of(c).as_slice());
                if t.len() > 0 {
                    return ReplyAction::Done(string_of(t.as_slice()));
                }
            },
            None => {},
        }
        let is_length = match finish_reason {
            Some(f) => same_text(chars_of(f).as_slice(), "length"),
            None => false,
        };
        if self.attempts == 2 && self.attempt == 1 && is_length {
            self.max_tokens = if self.max_tokens >= 256 {
                512
            } else {
                self.max_tokens * 2
            };
            self.attempt = 2;
            self.thinking_switch = true;
            return ReplyAction::RetryWithLargerBudget;
        }
        let mut message: Vec<char> = Vec::new();
        push_text(&mut message, "翻译模型未返回最终 content（finish_reason=");
        match finish_reason {
            Some(f) => push_text(&mut message, f),
            None => push_text(&mut message, "unknown"),
        }
        push_text(&mut message, "，reasoning_chars=");
        push_decimal(&mut message, reasoning_chars as u64);
        push_text(&mut message, "，max_tokens=");
        push_decimal(&mut message, self.max_tokens as u64);
        push_text(&mut message, "）。当前模型可能强制开启思考模式，请改用非推理/Flash 模型以获得实时翻译。");
        ReplyAction::Fail(TranslationError::Response(string_of(message.as_slice())))
    }
}

/// The error after the attempts ran out.
pub fn budget_exhausted_error() -> (r: TranslationError)
    ensures
        error_view(r) == (6int, "翻译模型在扩大输出额度后仍未返回最终结果"@),
{
    TranslationError::Response(string_of(chars_of("翻译模型在扩大输出额度后仍未返回最终结果").as_slice()))
}

/// The error for a reply that is not the expected JSON.
pub fn invalid_reply_error(error: &str, summary: &str) -> (r: TranslationError)
    ensures
        error_view(r) == (6int, "翻译响应不是有效的 OpenAI 兼容 JSON："@ + error@ + "；正文摘要："@ + summary@),
{
    let mut message: Vec<char> = Vec::new();
    push_text(&mut message, "翻译响应不是有效的 OpenAI 兼容 JSON：");
    push_text(&mut message, error);
    push_text(&mut message, "；正文摘要：");
    push_text(&mut message, summary);
    TranslationError::Response(string_of(message.as_slice()))
}

/// The error for a reply without choices.
pub fn empty_choices_error() -> (r: TranslationError)
    ensures
        error_view(r) == (6int, "翻译接口返回的 choices 为空"@),
{
    TranslationError::Response(string_of(chars_of("翻译接口返回的 choices 为空").as_slice()))
}

/// The error for a request that did not get an answer: a timeout while
/// connecting, a timeout while waiting, a connection failure (with a proxy
/// hint on a direct connection) or another failure.
pub open spec fn spec_request_error(is_timeout: bool, is_connect: bool, detail: Seq<char>, direct_connection: bool) -> Seq<char> {
    let text = if is_timeout && is_connect {
        "连接 API 超时（连接阶段超过 8 秒）"@
    } else if is_timeout {
        "API 已连接，但模型响应超过 60 秒"@
    } else if is_connect {
        "无法连接 API："@ + detail
    } else {
        detail
    };
    let hint = if direct_connection && is_connect {
        "；当前为直连，请在设置中填写可用的网络代理"@
    } else {
        Seq::empty()
    };
    text + hint
}

pub fn request_error(is_timeout: bool, is_connect: bool, detail: &str, direct_connection: bool) -> (r: TranslationError)
    ensures
        error_view(r) == (5int, spec_request_error(is_timeout, is_connect, detail@, direct_connection)),
{
    let mut message: Vec<char> = Vec::new();
    if is_timeout && is_connect {
        push_text(&mut message, "连接 API 超时（连接阶段超过 8 秒）");
    } else if is_timeout {
        push_text(&mut message, "API 已连接，但模型响应超过 60 秒");
    } else if is_connect {
        push_text(&mut message, "无法连接 API：");
        push_text(&mut message, detail);
    } else {
        push_text(&mut message, detail);
    }
    if direct_connection && is_connect {
        push_text(&mut message, "；当前为直连，请在设置中填写可用的网络代理");
    }
    assert(message@ =~= spec_request_error(is_timeout, is_connect, detail@, direct_connection));
    TranslationError::Request(string_of(message.as_slice()))
}

/// Lines sent for translation must not be empty.
pub fn check_lines_to_translate(count: usize) -> (r: Result<(), TranslationError>)
    ensures
        count > 0 ==> r is Ok,
        count == 0 ==> r is Err && error_view(r->Err_0) == (6int, "没有可翻译的聊天消息"@),
{
    if count == 0 {
        return Err(TranslationError::Response(string_of(chars_of("没有可翻译的聊天消息").as_slice())));
    }
    Ok(())
}


/// The text fields of the translation settings that an update from the
/// user replaces (the API key is handled on its own).
#[derive(Debug, Clone, PartialEq, Eq)]
pub struct SettingsText {
    pub api_url: String,
    pub proxy_url: String,
    pub model: String,
    pub ocr_language: String,
    pub capture_hotkey: String,
    pub incoming_prompt: String,
    pub outgoing_prompt: String,
}

fn trimmed(s: &str) -> (r: String)
    ensures
        r@ == trim_ws(s@),
{
    let cs = chars_of(s);
    string_of(trim_whitespace(cs.as_slice()).as_slice())
}

/// The settings text after an update: every field trimmed of blanks; the
/// API key replaced only when a new one is given; and whether the OCR
/// language changed, which restarts the chat tracker.
pub fn apply_settings_text(current: &SettingsText, current_api_key: &str, update: &SettingsText, new_api_key: Option<String>) -> (r: (SettingsText, String, bool))
    ensures
        r.0.api_url@ == trim_ws(update.api_url@),
        r.0.proxy_url@ == trim_ws(update.proxy_url@),
        r.0.model@ == trim_ws(update.model@),
        r.0.ocr_language@ == trim_ws(update.ocr_language@),
        r.0.capture_hotkey@ == trim_ws(update.capture_hotkey@),
        r.0.incoming_prompt@ == trim_ws(update.incoming_prompt@),
        r.0.outgoing_prompt@ == trim_ws(update.outgoing_prompt@),
        r.1@ == match new_api_key {
            Some(k) => k@,
            None => current_api_key@,
        },
        r.2 == (current.ocr_language@ != trim_ws(update.ocr_language@)),
{
    let next = SettingsText {
        api_url: trimmed(update.api_url.as_str()),
        proxy_url: trimmed(update.proxy_url.as_str()),
        model: trimmed(update.model.as_str()),
        ocr_language: trimmed(update.ocr_language.as_str()),
        capture_hotkey: trimmed(update.capture_hotkey.as_str()),
        incoming_prompt: trimmed(update.incoming_prompt.as_str()),
        outgoing_prompt: trimmed(update.outgoing_prompt.as_str()),
    };
    let key = match new_api_key {
        Some(k) => k,
        None => string_of(chars_of(current_api_key).as_slice()),
    };
    let current_language = chars_of(current.ocr_language.as_str());
    let next_language = chars_of(next.ocr_language.as_str());
    let changed = !chars_equal(current_language.as_slice(), next_language.as_slice());
    (next, key, changed)
}

} // verus!

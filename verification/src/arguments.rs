//! Argument templates: the closed vocabulary of tokens, what each one stands
//! for in a launch, and the passes that turn a descriptor's templates into
//! the arguments of the game and of the JVM.
use vstd::prelude::*;
use crate::manifest::{template_views, ArgTemplate, Predicate, PredicateView, TemplateView};
use crate::platform::Os;
use crate::text::{contains, has, replace, replace_all, same, texts};

verus! {

/// The tokens that a template can hold. Four tokens stand for the player's
/// identity, and all of them are one to the launcher, which signs nobody in.
#[derive(Clone, Copy, Debug, PartialEq, Eq, Structural)]
pub enum Token {
    PlayerName,
    VersionName,
    GameDirectory,
    AssetsRoot,
    AssetsIndexName,
    Identity,
    AccessToken,
    UserProperties,
    UserType,
    VersionType,
    Classpath,
    GameAssets,
    /// The flag of the demo mode, which is never passed on.
    Demo,
}

/// The token that a text is, if it is one.
pub open spec fn token_of(s: Seq<char>) -> Option<Token> {
    if s == "${auth_player_name}"@ {
        Some(Token::PlayerName)
    } else if s == "${version_name}"@ {
        Some(Token::VersionName)
    } else if s == "${game_directory}"@ {
        Some(Token::GameDirectory)
    } else if s == "${assets_root}"@ {
        Some(Token::AssetsRoot)
    } else if s == "${assets_index_name}"@ {
        Some(Token::AssetsIndexName)
    } else if s == "${auth_uuid}"@ {
        Some(Token::Identity)
    } else if s == "${auth_session}"@ {
        Some(Token::Identity)
    } else if s == "${clientid}"@ {
        Some(Token::Identity)
    } else if s == "${auth_xuid}"@ {
        Some(Token::Identity)
    } else if s == "${auth_access_token}"@ {
        Some(Token::AccessToken)
    } else if s == "${user_properties}"@ {
        Some(Token::UserProperties)
    } else if s == "${user_type}"@ {
        Some(Token::UserType)
    } else if s == "${version_type}"@ {
        Some(Token::VersionType)
    } else if s == "${classpath}"@ {
        Some(Token::Classpath)
    } else if s == "${game_assets}"@ {
        Some(Token::GameAssets)
    } else if s == "--demo"@ {
        Some(Token::Demo)
    } else {
        None
    }
}

/// Tells which token a text is.
pub fn classify(s: &str) -> (r: Option<Token>)
    ensures
        r == token_of(s@),
{
    if same(s, "${auth_player_name}") {
        Some(Token::PlayerName)
    } else if same(s, "${version_name}") {
        Some(Token::VersionName)
    } else if same(s, "${game_directory}") {
        Some(Token::GameDirectory)
    } else if same(s, "${assets_root}") {
        Some(Token::AssetsRoot)
    } else if same(s, "${assets_index_name}") {
        Some(Token::AssetsIndexName)
    } else if same(s, "${auth_uuid}") {
        Some(Token::Identity)
    } else if same(s, "${auth_session}") {
        Some(Token::Identity)
    } else if same(s, "${clientid}") {
        Some(Token::Identity)
    } else if same(s, "${auth_xuid}") {
        Some(Token::Identity)
    } else if same(s, "${auth_access_token}") {
        Some(Token::AccessToken)
    } else if same(s, "${user_properties}") {
        Some(Token::UserProperties)
    } else if same(s, "${user_type}") {
        Some(Token::UserType)
    } else if same(s, "${version_type}") {
        Some(Token::VersionType)
    } else if same(s, "${classpath}") {
        Some(Token::Classpath)
    } else if same(s, "${game_assets}") {
        Some(Token::GameAssets)
    } else if same(s, "--demo") {
        Some(Token::Demo)
    } else {
        None
    }
}

/// What the tokens stand for in one launch.
#[derive(Clone, Debug, PartialEq)]
pub struct LaunchBindings {
    pub player_name: String,
    pub version_name: String,
    pub game_directory: String,
    pub assets_root: String,
    pub assets_index_name: String,
    /// The one value behind every identity token.
    pub identity: String,
    pub access_token: String,
    pub user_properties: String,
    pub user_type: String,
    pub version_type: String,
    pub classpath: String,
    pub game_assets: String,
}

pub struct BindingsView {
    pub player_name: Seq<char>,
    pub version_name: Seq<char>,
    pub game_directory: Seq<char>,
    pub assets_root: Seq<char>,
    pub assets_index_name: Seq<char>,
    pub identity: Seq<char>,
    pub access_token: Seq<char>,
    pub user_properties: Seq<char>,
    pub user_type: Seq<char>,
    pub version_type: Seq<char>,
    pub classpath: Seq<char>,
    pub game_assets: Seq<char>,
}

impl View for LaunchBindings {
    type V = BindingsView;

    open spec fn view(&self) -> BindingsView {
        BindingsView {
            player_name: self.player_name@,
            version_name: self.version_name@,
            game_directory: self.game_directory@,
            assets_root: self.assets_root@,
            assets_index_name: self.assets_index_name@,
            identity: self.identity@,
            access_token: self.access_token@,
            user_properties: self.user_properties@,
            user_type: self.user_type@,
            version_type: self.version_type@,
            classpath: self.classpath@,
            game_assets: self.game_assets@,
        }
    }
}

impl BindingsView {
    /// What a token stands for; nothing for the demo flag, which is dropped.
    pub open spec fn value(self, token: Token) -> Option<Seq<char>> {
        match token {
            Token::PlayerName => Some(self.player_name),
            Token::VersionName => Some(self.version_name),
            Token::GameDirectory => Some(self.game_directory),
            Token::AssetsRoot => Some(self.assets_root),
            Token::AssetsIndexName => Some(self.assets_index_name),
            Token::Identity => Some(self.identity),
            Token::AccessToken => Some(self.access_token),
            Token::UserProperties => Some(self.user_properties),
            Token::UserType => Some(self.user_type),
            Token::VersionType => Some(self.version_type),
            Token::Classpath => Some(self.classpath),
            Token::GameAssets => Some(self.game_assets),
            Token::Demo => None,
        }
    }

    /// What one template becomes: a token's value, nothing for the demo flag,
    /// and the template itself where it is no token.
    pub open spec fn resolve(self, template: Seq<char>) -> Option<Seq<char>> {
        match token_of(template) {
            Some(token) => self.value(token),
            None => Some(template),
        }
    }
}

/// A sequence with one more item where there is one.
pub open spec fn pushed(s: Seq<Seq<char>>, item: Option<Seq<char>>) -> Seq<Seq<char>> {
    match item {
        Some(item) => s.push(item),
        None => s,
    }
}

/// The arguments that templates become under the bindings, in order.
pub open spec fn substituted(templates: Seq<Seq<char>>, bindings: BindingsView) -> Seq<Seq<char>>
    decreases templates.len(),
{
    if templates.len() == 0 {
        Seq::empty()
    } else {
        pushed(substituted(templates.drop_last(), bindings), bindings.resolve(templates.last()))
    }
}

impl LaunchBindings {
    /// The bindings of a launch. Nobody is signed in, so the identity, the
    /// access token, the user properties and the user type are fixed.
    pub fn new(
        player_name: String,
        version_name: String,
        game_directory: String,
        minecraft_dir: &str,
        assets_index_name: String,
        classpath: String,
    ) -> (r: LaunchBindings)
        ensures
            r@ == (BindingsView {
                player_name: player_name@,
                version_name: version_name@,
                game_directory: game_directory@,
                assets_root: minecraft_dir@ + "/assets"@,
                assets_index_name: assets_index_name@,
                identity: "000"@,
                access_token: "[pro]"@,
                user_properties: "{}"@,
                user_type: "legacy"@,
                version_type: "Release"@,
                classpath: classpath@,
                game_assets: minecraft_dir@ + "/resources"@,
            }),
    {
        let mut assets_root = minecraft_dir.to_owned();
        assets_root.append("/assets");
        let mut game_assets = minecraft_dir.to_owned();
        game_assets.append("/resources");
        LaunchBindings {
            player_name,
            version_name,
            game_directory,
            assets_root,
            assets_index_name,
            identity: "000".to_owned(),
            access_token: "[pro]".to_owned(),
            user_properties: "{}".to_owned(),
            user_type: "legacy".to_owned(),
            version_type: "Release".to_owned(),
            classpath,
            game_assets,
        }
    }

    /// What a token stands for.
    pub fn value_of(&self, token: Token) -> (r: Option<&String>)
        ensures
            match r {
                Some(value) => self@.value(token) == Some(value@),
                None => self@.value(token) is None,
            },
    {
        match token {
            Token::PlayerName => Some(&self.player_name),
            Token::VersionName => Some(&self.version_name),
            Token::GameDirectory => Some(&self.game_directory),
            Token::AssetsRoot => Some(&self.assets_root),
            Token::AssetsIndexName => Some(&self.assets_index_name),
            Token::Identity => Some(&self.identity),
            Token::AccessToken => Some(&self.access_token),
            Token::UserProperties => Some(&self.user_properties),
            Token::UserType => Some(&self.user_type),
            Token::VersionType => Some(&self.version_type),
            Token::Classpath => Some(&self.classpath),
            Token::GameAssets => Some(&self.game_assets),
            Token::Demo => None,
        }
    }
}

/// Substitutes the bindings into the templates: each token gives its value,
/// the demo flag gives nothing, and any other text stays as it is.
pub fn substitute(templates: &Vec<String>, bindings: &LaunchBindings) -> (r: Vec<String>)
    ensures
        texts(r@) == substituted(texts(templates@), bindings@),
{
    let mut out: Vec<String> = Vec::new();
    let mut i: usize = 0;
    while i < templates.len()
        invariant
            i <= templates.len(),
            texts(out@) == substituted(texts(templates@).take(i as int), bindings@),
        decreases templates.len() - i,
    {
        let ghost next = texts(templates@).take(i + 1);
        proof {
            assert(next.drop_last() =~= texts(templates@).take(i as int));
        }
        match classify(templates[i].as_str()) {
            Some(token) => match bindings.value_of(token) {
                Some(value) => {
                    out.push(value.clone());
                },
                None => {},
            },
            None => {
                out.push(templates[i].clone());
            },
        }
        i += 1;
    }
    proof {
        assert(texts(templates@).take(templates@.len() as int) =~= texts(templates@));
    }
    out
}

/// A text that is no token comes through substitution as it is.
pub proof fn lemma_unrecognized_token_passes(template: Seq<char>, bindings: BindingsView)
    requires
        token_of(template) is None,
    ensures
        bindings.resolve(template) == Some(template),
{
}

/// Templates of which none is a token come through substitution as they
/// are, so substituting once more changes nothing either.
pub proof fn lemma_unrecognized_tokens_pass(templates: Seq<Seq<char>>, bindings: BindingsView)
    requires
        forall|i: int| 0 <= i < templates.len() ==> token_of(#[trigger] templates[i]) is None,
    ensures
        substituted(templates, bindings) == templates,
        substituted(substituted(templates, bindings), bindings) == templates,
    decreases templates.len(),
{
    if templates.len() > 0 {
        lemma_unrecognized_tokens_pass(templates.drop_last(), bindings);
    }
}

/// Substitution goes template by template: what it makes of two lists in a
/// row is what it makes of the first, then what it makes of the second.
pub proof fn lemma_substituted_add(a: Seq<Seq<char>>, b: Seq<Seq<char>>, bindings: BindingsView)
    ensures
        substituted(a + b, bindings) == substituted(a, bindings) + substituted(b, bindings),
    decreases b.len(),
{
    if b.len() > 0 {
        lemma_substituted_add(a, b.drop_last(), bindings);
        assert((a + b).drop_last() =~= a + b.drop_last());
    }
}

/// The place of a token's value in a list of game data; none for the tokens
/// that take nothing from the list.
pub open spec fn slot(token: Token) -> Option<int> {
    match token {
        Token::PlayerName => Some(0),
        Token::VersionName => Some(1),
        Token::GameDirectory => Some(2),
        Token::AssetsRoot => Some(3),
        Token::AssetsIndexName => Some(4),
        Token::Identity => Some(5),
        Token::AccessToken => Some(6),
        Token::UserProperties => Some(7),
        Token::UserType => Some(8),
        Token::VersionType => Some(9),
        Token::Classpath => Some(10),
        Token::GameAssets => None,
        Token::Demo => None,
    }
}

/// The place of a token's value in a list of game data.
pub fn slot_of(token: Token) -> (r: Option<usize>)
    ensures
        match r {
            Some(place) => slot(token) == Some(place as int),
            None => slot(token) is None,
        },
{
    match token {
        Token::PlayerName => Some(0),
        Token::VersionName => Some(1),
        Token::GameDirectory => Some(2),
        Token::AssetsRoot => Some(3),
        Token::AssetsIndexName => Some(4),
        Token::Identity => Some(5),
        Token::AccessToken => Some(6),
        Token::UserProperties => Some(7),
        Token::UserType => Some(8),
        Token::VersionType => Some(9),
        Token::Classpath => Some(10),
        Token::GameAssets => None,
        Token::Demo => None,
    }
}

/// Whether the game data reach as far as the argument asks.
pub open spec fn within(argument: Seq<char>, gamedata: Seq<Seq<char>>) -> bool {
    match token_of(argument) {
        Some(token) => match slot(token) {
            Some(place) => place < gamedata.len(),
            None => true,
        },
        None => true,
    }
}

/// What one argument becomes over a list of game data: the value at its
/// token's place, the resource directory for the token of the game's assets,
/// nothing for the demo flag, and the argument itself where it is no token.
pub open spec fn filled(
    argument: Seq<char>,
    gamedata: Seq<Seq<char>>,
    minecraft_dir: Seq<char>,
) -> Option<Seq<char>> {
    match token_of(argument) {
        Some(Token::Demo) => None,
        Some(Token::GameAssets) => Some(minecraft_dir + "/resources"@),
        Some(token) => Some(gamedata[slot(token)->0]),
        None => Some(argument),
    }
}

/// The game's arguments over a list of game data.
pub open spec fn game_args(
    arguments: Seq<Seq<char>>,
    gamedata: Seq<Seq<char>>,
    minecraft_dir: Seq<char>,
) -> Seq<Seq<char>>
    decreases arguments.len(),
{
    if arguments.len() == 0 {
        Seq::empty()
    } else {
        pushed(
            game_args(arguments.drop_last(), gamedata, minecraft_dir),
            filled(arguments.last(), gamedata, minecraft_dir),
        )
    }
}

/// Fills the game's arguments from a list of game data, which holds, in this
/// order: player name, version id, game directory, assets root, asset index
/// id, identity, access token, user properties, user type, version type,
/// class path.
pub fn get_game_args(arguments: Vec<String>, gamedata: &[String], minecraft_dir: &str) -> (r: Vec<
    String,
>)
    requires
        forall|i: int| 0 <= i < arguments@.len() ==> within(#[trigger] arguments@[i]@, texts(gamedata@)),
    ensures
        texts(r@) == game_args(texts(arguments@), texts(gamedata@), minecraft_dir@),
{
    let mut out: Vec<String> = Vec::new();
    let mut i: usize = 0;
    while i < arguments.len()
        invariant
            i <= arguments.len(),
            forall|i: int|
                0 <= i < arguments@.len() ==> within(#[trigger] arguments@[i]@, texts(gamedata@)),
            texts(out@) == game_args(
                texts(arguments@).take(i as int),
                texts(gamedata@),
                minecraft_dir@,
            ),
        decreases arguments.len() - i,
    {
        let ghost next = texts(arguments@).take(i + 1);
        proof {
            assert(next.drop_last() =~= texts(arguments@).take(i as int));
        }
        match classify(arguments[i].as_str()) {
            Some(Token::Demo) => {},
            Some(Token::GameAssets) => {
                let mut resources = minecraft_dir.to_owned();
                resources.append("/resources");
                out.push(resources);
            },
            Some(token) => match slot_of(token) {
                Some(place) => {
                    out.push(gamedata[place].clone());
                },
                None => {},
            },
            None => {
                out.push(arguments[i].clone());
            },
        }
        i += 1;
    }
    proof {
        assert(texts(arguments@).take(arguments@.len() as int) =~= texts(arguments@));
    }
    out
}

/// The token that a text is to the short argument pass. It takes every value
/// from the game data, and these hold no directory of resources: so the token
/// of the game's assets is no token to it, and stays as it is. Every other
/// token is what it is to `get_game_args`; the session token is the identity
/// like the other three.
pub open spec fn short_token_of(s: Seq<char>) -> Option<Token> {
    match token_of(s) {
        Some(Token::GameAssets) => None,
        token => token,
    }
}

/// Whether the game data reach as far as the argument asks of the short pass.
pub open spec fn short_within(argument: Seq<char>, gamedata: Seq<Seq<char>>) -> bool {
    match short_token_of(argument) {
        Some(token) => match slot(token) {
            Some(place) => place < gamedata.len(),
            None => true,
        },
        None => true,
    }
}

/// What one argument becomes in the short pass.
pub open spec fn short_filled(argument: Seq<char>, gamedata: Seq<Seq<char>>) -> Option<Seq<char>> {
    match short_token_of(argument) {
        Some(Token::Demo) => None,
        Some(token) => Some(gamedata[slot(token)->0]),
        None => Some(argument),
    }
}

/// The game's arguments as the short pass fills them.
pub open spec fn short_game_args(arguments: Seq<Seq<char>>, gamedata: Seq<Seq<char>>) -> Seq<
    Seq<char>,
>
    decreases arguments.len(),
{
    if arguments.len() == 0 {
        Seq::empty()
    } else {
        pushed(
            short_game_args(arguments.drop_last(), gamedata),
            short_filled(arguments.last(), gamedata),
        )
    }
}

/// The four tokens of the player's identity are one token: the id, the
/// session, the client id and the extended id all stand for the identity.
pub proof fn lemma_identity_tokens()
    ensures
        token_of("${auth_uuid}"@) == Some(Token::Identity),
        token_of("${auth_session}"@) == Some(Token::Identity),
        token_of("${clientid}"@) == Some(Token::Identity),
        token_of("${auth_xuid}"@) == Some(Token::Identity),
        short_token_of("${auth_session}"@) == Some(Token::Identity),
{
    reveal_strlit("${auth_player_name}");
    reveal_strlit("${version_name}");
    reveal_strlit("${game_directory}");
    reveal_strlit("${assets_root}");
    reveal_strlit("${assets_index_name}");
    reveal_strlit("${auth_uuid}");
    reveal_strlit("${auth_session}");
    reveal_strlit("${clientid}");
    reveal_strlit("${auth_xuid}");
    let names = seq![
        "${auth_player_name}"@,
        "${version_name}"@,
        "${game_directory}"@,
        "${assets_root}"@,
        "${assets_index_name}"@,
    ];
    assert forall|i: int| 0 <= i < names.len() implies names[i] != "${auth_uuid}"@ && names[i]
        != "${auth_session}"@ && names[i] != "${clientid}"@ && names[i] != "${auth_xuid}"@ by {
        // They differ in length, or in their third or eighth character.
        assert(names[i].len() != 12 || names[i][2] != 'a');
        assert(names[i].len() != 15 || names[i][7] != 's');
        assert(names[i].len() != 11 || names[i][2] != 'c' && names[i][7] != 'x');
    }
    assert(names[0] == "${auth_player_name}"@);
    assert(names[1] == "${version_name}"@);
    assert(names[2] == "${game_directory}"@);
    assert(names[3] == "${assets_root}"@);
    assert(names[4] == "${assets_index_name}"@);
}

/// The short pass gives what the full pass gives, where no argument is the
/// token of the game's assets.
pub proof fn lemma_short_pass_is_full(
    arguments: Seq<Seq<char>>,
    gamedata: Seq<Seq<char>>,
    minecraft_dir: Seq<char>,
)
    requires
        forall|i: int|
            0 <= i < arguments.len() ==> token_of(#[trigger] arguments[i]) != Some(
                Token::GameAssets,
            ),
    ensures
        short_game_args(arguments, gamedata) == game_args(arguments, gamedata, minecraft_dir),
    decreases arguments.len(),
{
    if arguments.len() > 0 {
        lemma_short_pass_is_full(arguments.drop_last(), gamedata, minecraft_dir);
    }
}

/// The short argument pass: as `get_game_args`, from the game data alone. The
/// token of the game's assets, whose value the game data do not hold, is
/// passed on as it is.
pub fn getgameargs(arguments: Vec<String>, gamedata: &[String]) -> (r: Vec<String>)
    requires
        forall|i: int|
            0 <= i < arguments@.len() ==> short_within(#[trigger] arguments@[i]@, texts(gamedata@)),
    ensures
        texts(r@) == short_game_args(texts(arguments@), texts(gamedata@)),
{
    let mut out: Vec<String> = Vec::new();
    let mut i: usize = 0;
    while i < arguments.len()
        invariant
            i <= arguments.len(),
            forall|i: int|
                0 <= i < arguments@.len() ==> short_within(
                    #[trigger] arguments@[i]@,
                    texts(gamedata@),
                ),
            texts(out@) == short_game_args(texts(arguments@).take(i as int), texts(gamedata@)),
        decreases arguments.len() - i,
    {
        let ghost next = texts(arguments@).take(i + 1);
        proof {
            assert(next.drop_last() =~= texts(arguments@).take(i as int));
        }
        match classify(arguments[i].as_str()) {
            Some(Token::Demo) => {},
            Some(Token::GameAssets) => {
                out.push(arguments[i].clone());
            },
            Some(token) => match slot_of(token) {
                Some(place) => {
                    out.push(gamedata[place].clone());
                },
                None => {},
            },
            None => {
                out.push(arguments[i].clone());
            },
        }
        i += 1;
    }
    proof {
        assert(texts(arguments@).take(arguments@.len() as int) =~= texts(arguments@));
    }
    out
}

/// Whether a predicate holds on a platform. No feature is ever switched on.
pub open spec fn holds(when: PredicateView, os: Os) -> bool {
    match when {
        PredicateView::Always => true,
        PredicateView::Os(name) => name == os.name(),
        PredicateView::Feature(_) => false,
    }
}

/// The tokens that one template gives on a platform.
pub open spec fn tokens_on(template: TemplateView, os: Os) -> Seq<Seq<char>> {
    match template {
        TemplateView::Literal(token) => seq![token],
        TemplateView::Conditional(when, tokens) => if holds(when, os) {
            tokens
        } else {
            Seq::empty()
        },
    }
}

/// The tokens of the templates whose predicate holds on the platform, in
/// order.
pub open spec fn retained(templates: Seq<TemplateView>, os: Os) -> Seq<Seq<char>>
    decreases templates.len(),
{
    if templates.len() == 0 {
        Seq::empty()
    } else {
        retained(templates.drop_last(), os) + tokens_on(templates.last(), os)
    }
}

/// Retaining goes template by template: what is retained of two lists in a
/// row is what is retained of the first, then of the second.
pub proof fn lemma_retained_add(first: Seq<TemplateView>, second: Seq<TemplateView>, os: Os)
    ensures
        retained(first + second, os) == retained(first, os) + retained(second, os),
    decreases second.len(),
{
    if second.len() == 0 {
        assert(first + second =~= first);
    } else {
        lemma_retained_add(first, second.drop_last(), os);
        assert((first + second).drop_last() =~= first + second.drop_last());
    }
}

/// Whether a predicate holds on a platform.
pub fn predicate_holds(when: &Predicate, os: Os) -> (r: bool)
    ensures
        r == holds(when@, os),
{
    match when {
        Predicate::Always => true,
        Predicate::Os(name) => same(name.as_str(), os.as_str()),
        Predicate::Feature(_) => false,
    }
}

/// Keeps the tokens of the templates whose predicate holds on the platform.
pub fn retain(templates: &Vec<ArgTemplate>, os: Os) -> (r: Vec<String>)
    ensures
        texts(r@) == retained(template_views(templates@), os),
{
    let mut out: Vec<String> = Vec::new();
    let mut i: usize = 0;
    while i < templates.len()
        invariant
            i <= templates.len(),
            texts(out@) == retained(template_views(templates@).take(i as int), os),
        decreases templates.len() - i,
    {
        let ghost next = template_views(templates@).take(i + 1);
        let ghost before = out@;
        proof {
            assert(next.drop_last() =~= template_views(templates@).take(i as int));
        }
        match &templates[i] {
            ArgTemplate::Literal(token) => {
                out.push(token.clone());
            },
            ArgTemplate::Conditional(when, tokens) => {
                if predicate_holds(when, os) {
                    let mut k: usize = 0;
                    while k < tokens.len()
                        invariant
                            k <= tokens.len(),
                            texts(out@) == texts(before) + texts(tokens@).take(k as int),
                        decreases tokens.len() - k,
                    {
                        let ghost so_far = out@;
                        out.push(tokens[k].clone());
                        proof {
                            assert(texts(out@) =~= texts(so_far).push(tokens@[k as int]@));
                        }
                        k += 1;
                    }
                }
            },
        }
        i += 1;
    }
    proof {
        assert(template_views(templates@).take(templates@.len() as int) =~= template_views(
            templates@,
        ));
    }
    out
}

/// What one JVM template becomes: with the natives directory in place of its
/// token where it has that token; nothing where it is the class path or its
/// flag, which the launcher passes itself; else the template as it is.
pub open spec fn jvm_filled(template: Seq<char>, nativedir: Seq<char>) -> Option<Seq<char>> {
    if contains(template, "${natives_directory}"@) {
        Some(replace(template, "${natives_directory}"@, nativedir))
    } else if template == "${classpath}"@ || template == "-cp"@ {
        None
    } else {
        Some(template)
    }
}

/// The JVM arguments that a list of templates gives.
pub open spec fn jvm_list(templates: Seq<Seq<char>>, nativedir: Seq<char>) -> Seq<Seq<char>>
    decreases templates.len(),
{
    if templates.len() == 0 {
        Seq::empty()
    } else {
        pushed(jvm_list(templates.drop_last(), nativedir), jvm_filled(templates.last(), nativedir))
    }
}

/// The JVM arguments of a descriptor: those of its templates, or, where it
/// has no list of them at all, the one property that names the natives
/// directory.
pub open spec fn jvm_args(templates: Option<Seq<Seq<char>>>, nativedir: Seq<char>) -> Seq<
    Seq<char>,
> {
    match templates {
        Some(templates) => jvm_list(templates, nativedir),
        None => seq!["-Djava.library.path="@ + nativedir],
    }
}

/// The texts of an optional list of strings.
pub open spec fn opt_texts(v: Option<&Vec<String>>) -> Option<Seq<Seq<char>>> {
    match v {
        Some(v) => Some(texts(v@)),
        None => None,
    }
}

/// Fills the JVM arguments of a descriptor.
pub fn get_game_jvm_args(templates: Option<&Vec<String>>, nativedir: &str) -> (r: Vec<String>)
    ensures
        texts(r@) == jvm_args(opt_texts(templates), nativedir@),
{
    let mut out: Vec<String> = Vec::new();
    match templates {
        Some(templates) => {
            let mut i: usize = 0;
            while i < templates.len()
                invariant
                    i <= templates.len(),
                    texts(out@) == jvm_list(texts(templates@).take(i as int), nativedir@),
                decreases templates.len() - i,
            {
                let ghost next = texts(templates@).take(i + 1);
                proof {
                    assert(next.drop_last() =~= texts(templates@).take(i as int));
                }
                let template = templates[i].as_str();
                if has(template, "${natives_directory}") {
                    let value = replace_all(template, "${natives_directory}", nativedir);
                    out.push(value);
                } else if same(template, "${classpath}") || same(template, "-cp") {
                } else {
                    out.push(templates[i].clone());
                }
                i += 1;
            }
            proof {
                assert(texts(templates@).take(templates@.len() as int) =~= texts(templates@));
            }
        },
        None => {
            let mut property = "-Djava.library.path=".to_owned();
            property.append(nativedir);
            out.push(property);
        },
    }
    out
}

/// The flag of the user properties.
pub open spec fn user_flag() -> Seq<char> {
    "--userProperties"@
}

/// How many of the arguments are the flag of the user properties.
pub open spec fn flag_count(arguments: Seq<Seq<char>>) -> nat
    decreases arguments.len(),
{
    if arguments.len() == 0 {
        0
    } else {
        flag_count(arguments.drop_last()) + if arguments.last() == user_flag() {
            1nat
        } else {
            0nat
        }
    }
}

/// Whether each flag of the user properties has its value directly behind it.
pub open spec fn paired(arguments: Seq<Seq<char>>) -> bool {
    forall|i: int|
        0 <= i < arguments.len() && #[trigger] arguments[i] == user_flag() ==> i + 1
            < arguments.len() && arguments[i + 1] != user_flag()
}

/// The arguments with one pair of user properties at most. An argument
/// directly behind a flag is that flag's value, unless it is a flag itself.
/// The first flag stays, with its value, or with empty properties where it
/// has none; every later flag goes, and its value with it. All other
/// arguments stay, in their order.
pub open spec fn first_pair(arguments: Seq<Seq<char>>) -> Seq<Seq<char>>
    decreases arguments.len(),
{
    if arguments.len() == 0 {
        Seq::empty()
    } else {
        let front = arguments.drop_last();
        let before = first_pair(front);
        if arguments.last() == user_flag() {
            if flag_count(front) > 0 {
                before
            } else {
                before + seq![user_flag(), "{}"@]
            }
        } else if front.len() > 0 && front.last() == user_flag() {
            if flag_count(front.drop_last()) > 0 {
                before
            } else {
                before.drop_last().push(arguments.last())
            }
        } else {
            before.push(arguments.last())
        }
    }
}

/// The arguments with the user properties: with their first pair alone where
/// they hold the flag, else with the flag and empty properties behind them.
pub open spec fn with_user_properties(arguments: Seq<Seq<char>>) -> Seq<Seq<char>> {
    if flag_count(arguments) > 0 {
        first_pair(arguments)
    } else {
        arguments + seq![user_flag(), "{}"@]
    }
}

/// One more argument counts as one more flag where it is the flag.
pub proof fn lemma_count_push(arguments: Seq<Seq<char>>, argument: Seq<char>)
    ensures
        flag_count(arguments.push(argument)) == flag_count(arguments) + if argument == user_flag() {
            1nat
        } else {
            0nat
        },
{
    assert(arguments.push(argument).drop_last() =~= arguments);
}

/// Arguments without the flag are left as they are by `first_pair`, and
/// arguments with it come out with the flag once, its value behind it.
pub proof fn lemma_first_pair(arguments: Seq<Seq<char>>)
    ensures
        flag_count(arguments) == 0 ==> first_pair(arguments) == arguments,
        flag_count(arguments) > 0 ==> flag_count(first_pair(arguments)) == 1 && paired(
            first_pair(arguments),
        ),
    decreases arguments.len(),
{
    reveal_strlit("--userProperties");
    reveal_strlit("{}");
    assert("{}"@ != user_flag()) by {
        assert("{}"@.len() != user_flag().len());
    }
    if arguments.len() > 0 {
        let front = arguments.drop_last();
        let before = first_pair(front);
        let kept = first_pair(arguments);
        lemma_first_pair(front);
        if arguments.last() == user_flag() {
            if flag_count(front) == 0 {
                assert(kept =~= front.push(user_flag()).push("{}"@));
                lemma_count_push(front, user_flag());
                lemma_count_push(front.push(user_flag()), "{}"@);
                assert forall|i: int| 0 <= i < kept.len() && #[trigger] kept[i]
                    == user_flag() implies i + 1 < kept.len() && kept[i + 1] != user_flag() by {
                    if i < front.len() {
                        lemma_no_flag(front, i);
                    }
                }
            }
        } else if front.len() > 0 && front.last() == user_flag() {
            if flag_count(front.drop_last()) == 0 {
                let head = front.drop_last();
                lemma_first_pair(head);
                assert(before =~= head + seq![user_flag(), "{}"@]);
                assert(kept =~= head.push(user_flag()).push(arguments.last()));
                lemma_count_push(head, user_flag());
                lemma_count_push(head.push(user_flag()), arguments.last());
                assert forall|i: int| 0 <= i < kept.len() && #[trigger] kept[i]
                    == user_flag() implies i + 1 < kept.len() && kept[i + 1] != user_flag() by {
                    if i < head.len() {
                        lemma_no_flag(head, i);
                    }
                }
            }
        } else {
            lemma_count_push(before, arguments.last());
            if flag_count(front) == 0 {
                assert(front.push(arguments.last()) =~= arguments);
            } else {
                assert forall|i: int| 0 <= i < kept.len() && #[trigger] kept[i]
                    == user_flag() implies i + 1 < kept.len() && kept[i + 1] != user_flag() by {
                    assert(before[i] == user_flag());
                }
            }
        }
    }
}

/// Where the flag is not counted, no argument is the flag.
pub proof fn lemma_no_flag(arguments: Seq<Seq<char>>, i: int)
    requires
        flag_count(arguments) == 0,
        0 <= i < arguments.len(),
    ensures
        arguments[i] != user_flag(),
    decreases arguments.len(),
{
    if i < arguments.len() - 1 {
        lemma_no_flag(arguments.drop_last(), i);
    }
}

/// The final arguments hold the user properties exactly once: the flag
/// stands in them once, directly followed by its value.
pub proof fn lemma_user_properties_once(arguments: Seq<Seq<char>>)
    ensures
        flag_count(with_user_properties(arguments)) == 1,
        paired(with_user_properties(arguments)),
{
    reveal_strlit("--userProperties");
    reveal_strlit("{}");
    assert("{}"@ != user_flag()) by {
        assert("{}"@.len() != user_flag().len());
    }
    lemma_first_pair(arguments);
    if flag_count(arguments) == 0 {
        let all = with_user_properties(arguments);
        assert(all =~= arguments.push(user_flag()).push("{}"@));
        lemma_count_push(arguments, user_flag());
        lemma_count_push(arguments.push(user_flag()), "{}"@);
        assert forall|i: int| 0 <= i < all.len() && #[trigger] all[i] == user_flag() implies i + 1
            < all.len() && all[i + 1] != user_flag() by {
            if i < arguments.len() {
                lemma_no_flag(arguments, i);
            }
        }
    }
}

/// Sees to the user properties: the arguments come out with the flag exactly
/// once, directly followed by its value. The first pair that they hold
/// stays, later ones go, and where they hold none, the flag and empty
/// properties are put behind them.
pub fn ensure_user_properties(arguments: Vec<String>) -> (r: Vec<String>)
    ensures
        texts(r@) == with_user_properties(texts(arguments@)),
        flag_count(texts(r@)) == 1,
        paired(texts(r@)),
{
    let ghost all = texts(arguments@);
    let mut out: Vec<String> = Vec::new();
    // Whether a flag has been met, whether the argument before is a flag, and
    // whether that flag is the first one.
    let mut seen = false;
    let mut after_flag = false;
    let mut after_first = false;
    let mut i: usize = 0;
    proof {
        assert(all.take(0) =~= Seq::<Seq<char>>::empty());
    }
    while i < arguments.len()
        invariant
            i <= arguments.len(),
            all == texts(arguments@),
            seen <==> flag_count(all.take(i as int)) > 0,
            after_flag <==> (i > 0 && all[i - 1] == user_flag()),
            after_first <==> (after_flag && flag_count(all.take(i - 1)) == 0),
            after_first ==> out@.len() > 0,
            texts(out@) == first_pair(all.take(i as int)),
        decreases arguments.len() - i,
    {
        let ghost next = all.take(i + 1);
        let ghost so_far = out@;
        proof {
            assert(next.drop_last() =~= all.take(i as int));
            assert(next.last() == arguments@[i as int]@);
            if i > 0 {
                assert(all.take(i as int).drop_last() =~= all.take(i - 1));
                assert(all.take(i as int).last() == all[i - 1]);
            }
        }
        if same(arguments[i].as_str(), "--userProperties") {
            if !seen {
                out.push("--userProperties".to_owned());
                out.push("{}".to_owned());
                proof {
                    assert(texts(out@) =~= texts(so_far) + seq![user_flag(), "{}"@]);
                }
            }
            after_first = !seen;
            seen = true;
            after_flag = true;
        } else if after_flag {
            if after_first {
                out.pop();
                out.push(arguments[i].clone());
                proof {
                    assert(texts(out@) =~= texts(so_far).drop_last().push(arguments@[i as int]@));
                }
            }
            after_flag = false;
            after_first = false;
        } else {
            out.push(arguments[i].clone());
            proof {
                assert(texts(out@) =~= texts(so_far).push(arguments@[i as int]@));
            }
        }
        i += 1;
    }
    proof {
        assert(all.take(arguments@.len() as int) =~= all);
        lemma_first_pair(all);
        lemma_user_properties_once(all);
    }
    if !seen {
        let ghost so_far = out@;
        out.push("--userProperties".to_owned());
        out.push("{}".to_owned());
        proof {
            assert(texts(out@) =~= texts(so_far) + seq![user_flag(), "{}"@]);
        }
    }
    out
}

} // verus!

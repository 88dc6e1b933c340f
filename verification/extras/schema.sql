-- The tables of the server.

CREATE TABLE IF NOT EXISTS library (
    id INTEGER PRIMARY KEY,
    name TEXT NOT NULL,
    collection_type TEXT NOT NULL DEFAULT 'tvshows',
    created_at TEXT NOT NULL DEFAULT '',
    updated_at TEXT NOT NULL DEFAULT ''
);

CREATE TABLE IF NOT EXISTS library_path (
    id INTEGER PRIMARY KEY,
    library_id BIGINT NOT NULL,
    path TEXT NOT NULL,
    path_type TEXT NOT NULL,
    sort_order BIGINT NOT NULL DEFAULT 0,
    created_at TEXT NOT NULL DEFAULT '',
    updated_at TEXT NOT NULL DEFAULT ''
);

CREATE TABLE IF NOT EXISTS item (
    id INTEGER PRIMARY KEY,
    type TEXT NOT NULL,
    library_id BIGINT,
    parent_id BIGINT,
    title TEXT NOT NULL,
    sort_title TEXT,
    description TEXT,
    tagline TEXT,
    date_air TEXT,
    end_date TEXT,
    status TEXT,
    runtime BIGINT,
    production_year BIGINT,
    season_number BIGINT,
    episode_number BIGINT,
    is_virtual BIGINT NOT NULL DEFAULT 0,
    tmdb_id TEXT,
    imdb_id TEXT,
    tvdb_id TEXT,
    community_rating DOUBLE PRECISION,
    official_rating TEXT,
    scrape_status TEXT,
    scrape_attempts BIGINT NOT NULL DEFAULT 0,
    created_at TEXT NOT NULL DEFAULT '',
    updated_at TEXT NOT NULL DEFAULT ''
);

CREATE TABLE IF NOT EXISTS media_source (
    id INTEGER PRIMARY KEY,
    uuid TEXT NOT NULL,
    item_id BIGINT NOT NULL,
    name TEXT,
    protocol TEXT,
    container TEXT,
    file_size BIGINT,
    file_duration BIGINT,
    metadata TEXT,
    chapters TEXT,
    width BIGINT,
    height BIGINT,
    path TEXT,
    remote_path TEXT,
    created_at TEXT NOT NULL DEFAULT '',
    updated_at TEXT NOT NULL DEFAULT ''
);

CREATE TABLE IF NOT EXISTS external_subtitle (
    id INTEGER PRIMARY KEY,
    media_source_id BIGINT NOT NULL,
    display_title TEXT,
    codec TEXT,
    path TEXT,
    is_forced BIGINT NOT NULL DEFAULT 0
);

CREATE TABLE IF NOT EXISTS user_item_data (
    id INTEGER PRIMARY KEY,
    user_id BIGINT NOT NULL,
    item_id BIGINT NOT NULL,
    played BIGINT NOT NULL DEFAULT 0,
    play_count BIGINT NOT NULL DEFAULT 0,
    playback_position_ticks BIGINT,
    last_played_date TEXT,
    is_favorite BIGINT NOT NULL DEFAULT 0,
    is_active BIGINT NOT NULL DEFAULT 0,
    updated_at TEXT NOT NULL DEFAULT '',
    UNIQUE (user_id, item_id)
);

CREATE TABLE IF NOT EXISTS genre (
    id INTEGER PRIMARY KEY,
    name TEXT NOT NULL
);

CREATE TABLE IF NOT EXISTS studio (
    id INTEGER PRIMARY KEY,
    name TEXT NOT NULL
);

CREATE TABLE IF NOT EXISTS tag (
    id INTEGER PRIMARY KEY,
    name TEXT NOT NULL
);

CREATE TABLE IF NOT EXISTS people (
    id INTEGER PRIMARY KEY,
    tmdb_id TEXT,
    name TEXT NOT NULL,
    original_name TEXT,
    gender BIGINT NOT NULL DEFAULT 0,
    description TEXT,
    birthday TEXT,
    deathday TEXT,
    created_at TEXT NOT NULL DEFAULT '',
    updated_at TEXT NOT NULL DEFAULT ''
);

CREATE TABLE IF NOT EXISTS item_genre (
    item_id BIGINT NOT NULL,
    genre_id BIGINT NOT NULL
);

CREATE TABLE IF NOT EXISTS item_studio (
    item_id BIGINT NOT NULL,
    studio_id BIGINT NOT NULL
);

CREATE TABLE IF NOT EXISTS item_tag (
    item_id BIGINT NOT NULL,
    tag_id BIGINT NOT NULL
);

CREATE TABLE IF NOT EXISTS item_people (
    item_id BIGINT NOT NULL,
    people_id BIGINT NOT NULL,
    role TEXT NOT NULL DEFAULT 'Actor',
    character_name TEXT,
    sort_order BIGINT NOT NULL DEFAULT 0
);

CREATE TABLE IF NOT EXISTS item_image (
    id INTEGER PRIMARY KEY,
    parent_type TEXT NOT NULL,
    parent_id BIGINT NOT NULL,
    image_type TEXT NOT NULL,
    image_index BIGINT NOT NULL DEFAULT 0,
    path_url TEXT
);

CREATE TABLE IF NOT EXISTS scan_job (
    id INTEGER PRIMARY KEY,
    library_id BIGINT NOT NULL,
    origin TEXT NOT NULL,
    status TEXT NOT NULL DEFAULT 'pending',
    updated BIGINT NOT NULL DEFAULT 0,
    created_at TEXT NOT NULL DEFAULT ''
);

CREATE TABLE IF NOT EXISTS app_setting (
    key TEXT PRIMARY KEY,
    value TEXT NOT NULL
);

CREATE TABLE IF NOT EXISTS app_user (
    id INTEGER PRIMARY KEY,
    username TEXT NOT NULL UNIQUE,
    password_hash TEXT NOT NULL DEFAULT '',
    is_admin BIGINT NOT NULL DEFAULT 0,
    is_disable BIGINT NOT NULL DEFAULT 0,
    last_login TEXT
);

CREATE TABLE IF NOT EXISTS auth_token (
    id INTEGER PRIMARY KEY,
    token_hash TEXT NOT NULL UNIQUE,
    user_id BIGINT NOT NULL,
    kind TEXT NOT NULL,
    client TEXT NOT NULL,
    device TEXT NOT NULL,
    device_id TEXT NOT NULL,
    version TEXT NOT NULL,
    created_at TEXT NOT NULL
);

CREATE TABLE IF NOT EXISTS login_event (
    id INTEGER PRIMARY KEY,
    user_id BIGINT,
    username TEXT NOT NULL,
    login_type TEXT NOT NULL,
    success BIGINT NOT NULL,
    ip TEXT NOT NULL,
    device_id TEXT NOT NULL,
    device_name TEXT NOT NULL,
    device_client TEXT NOT NULL,
    reason TEXT NOT NULL,
    created_at TEXT NOT NULL
);

CREATE INDEX IF NOT EXISTS item_parent ON item (parent_id);

CREATE INDEX IF NOT EXISTS media_item ON media_source (item_id);

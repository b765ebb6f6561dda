//! The Spanish message catalogue.
use vstd::prelude::*;

use crate::text::{chars_eq_str, chars_of};
use crate::utils::hint_key;

verus! {

/// The Spanish text stored under `key`, or the empty text for an unknown key.
pub open spec fn es_text(key: Seq<char>) -> Seq<char> {
    if key == "patto_project_root_missing"@ {
        "No se encontró la raiz del proyecto."@
    } else if key == "patto_project_root_missing.hint"@ {
        "Ejecuta este comando dentro de un proyecto Patto o usa --root."@
    } else if key == "patto_root_not_directory"@ {
        "La ruta informada no es un directorio"@
    } else if key == "patto_root_not_directory.hint"@ {
        "Informa la ruta raíz del directorio"@
    } else if key == "patto_config_missing"@ {
        "No se encontró .patto/config.json."@
    } else if key == "patto_config_missing.hint"@ {
        "Crea .patto/config.json con { \"schemaVersion\": 1, \"lang\": \"es\" }."@
    } else if key == "patto_config_invalid"@ {
        "No se pudo leer .patto/config.json como JSON válido."@
    } else if key == "patto_config_invalid.hint"@ {
        "Revisa la sintaxis JSON del archivo de configuración."@
    } else if key == "patto_config_lang_unsupported"@ {
        "El idioma configurado todavía no está soportado."@
    } else if key == "patto_config_lang_unsupported.hint"@ {
        "Por ahora usa \"lang\": \"es\"."@
    } else if key == "patto_package_json_missing"@ {
        "No se encontró package.json en la raíz del proyecto."@
    } else if key == "patto_package_json_missing.hint"@ {
        "Ejecuta scan desde la raíz de un proyecto Patto o usa --root."@
    } else if key == "patto_commands_dir_missing"@ {
        "No se encontró src/commands."@
    } else if key == "patto_commands_dir_missing.hint"@ {
        "Un proyecto Patto debe tener sus comandos en src/commands."@
    } else if key == "patto_scan_index_write_failed"@ {
        "No se pudo escribir .patto/index.json."@
    } else if key == "patto_scan_index_write_failed.hint"@ {
        "Revisa permisos de escritura sobre la carpeta .patto."@
    } else if key == "patto_source_file_read_failed.message"@ {
        "No se pudo leer el archivo `{file}`."@
    } else if key == "patto_source_file_read_failed"@ {
        "No se pudo leer un archivo fuente del proyecto."@
    } else if key == "patto_source_file_read_failed.hint"@ {
        "Revisa permisos, codificación y que el archivo siga existiendo durante el análisis."@
    } else if key == "common.unknown-class"@ {
        "(clase desconocida)"@
    } else if key == "common.unnamed"@ {
        "(sin nombre)"@
    } else if key == "common.unknown-version"@ {
        "(sin versión)"@
    } else if key == "common.not-written"@ {
        "(no escrito)"@
    } else if key == "cli.scan.root-invalid"@ {
        "patto-core scan failed: la raíz del proyecto no es válida."@
    } else if key == "cli.scan.completed"@ {
        "patto-core scan completed: {files} archivos, {commands} comandos, índice en {index}."@
    } else if key == "cli.lint.root-invalid"@ {
        "patto-core lint failed: la raíz del proyecto no es válida."@
    } else if key == "cli.lint.completed"@ {
        "patto-core lint completed: {errors} errores, {warnings} advertencias, {infos} infos."@
    } else if key == "cli.check.root-invalid"@ {
        "patto-core check failed: la raíz del proyecto no es válida."@
    } else if key == "cli.check.completed"@ {
        "patto-core check completed: {errors} errores, {warnings} advertencias, {infos} infos."@
    } else if key == "cli.doctor.root-invalid"@ {
        "patto-core doctor failed: la raíz del proyecto no es válida."@
    } else if key == "cli.doctor.completed"@ {
        "patto-core doctor completed: {ok} ok, {warnings} advertencias, {errors} errores, {skipped} omitidos."@
    } else if key == "cli.format-i18n.root-invalid"@ {
        "patto-core format-i18n failed: la raíz del proyecto no es válida."@
    } else if key == "cli.format-i18n.completed"@ {
        "patto-core format-i18n completed: {formatted} formateados, {unchanged} sin cambios, {skipped} omitidos."@
    } else if key == "patto_format_i18n_locale_dir_missing"@ {
        "No se encontró src/i18n/locale."@
    } else if key == "patto_format_i18n_locale_dir_missing.hint"@ {
        "Crea los archivos de locale antes de ejecutar format-i18n."@
    } else if key == "patto_format_i18n_file_unsupported.message"@ {
        "No se pudo formatear `{file}` porque no tiene un export const de locale soportado."@
    } else if key == "patto_format_i18n_file_unsupported.hint"@ {
        "Usa archivos con forma export const es = { 'key': 'value' }."@
    } else if key == "patto_format_i18n_file_read_failed.message"@ {
        "No se pudo leer `{file}`."@
    } else if key == "patto_format_i18n_file_read_failed.hint"@ {
        "Revisa permisos y que el archivo siga existiendo."@
    } else if key == "patto_format_i18n_file_write_failed.message"@ {
        "No se pudo escribir `{file}`."@
    } else if key == "patto_format_i18n_file_write_failed.hint"@ {
        "Revisa permisos de escritura en src/i18n/locale."@
    } else if key == "patto_lint_rule_config_invalid.message"@ {
        "La regla `{rule}` tiene severidad inválida: `{severity}`."@
    } else if key == "patto_lint_rule_config_invalid"@ {
        "La configuración de lint-rules contiene una severidad inválida."@
    } else if key == "patto_lint_rule_config_invalid.hint"@ {
        "Usa una de estas severidades: off, info, warning o error."@
    } else if key == "duplicate-commands.message"@ {
        "La key de comando `{key}` está duplicada."@
    } else if key == "duplicate-commands"@ {
        "Hay comandos con la misma clave."@
    } else if key == "duplicate-commands.hint"@ {
        "Renombra uno de los comandos para que su key sea única."@
    } else if key == "duplicate-aliases.duplicate.message"@ {
        "El alias `{alias}` está duplicado."@
    } else if key == "duplicate-aliases.name-conflict.message"@ {
        "El alias `{alias}` entra en conflicto con un nombre de comando."@
    } else if key == "duplicate-aliases"@ {
        "Hay aliases de comando duplicados."@
    } else if key == "duplicate-aliases.hint"@ {
        "Cada alias debe apuntar a un solo comando base."@
    } else if key == "unknown-command-files.message"@ {
        "No se detectó metadata de comando en `{file}`."@
    } else if key == "unknown-command-files"@ {
        "Hay archivos *.command.ts sin metadata de comando detectable."@
    } else if key == "unknown-command-files.hint"@ {
        "Agrega @Command, @Subcommand o @SubcommandGroup, o extiende una definition decorada."@
    } else if key == "invalid-command-names.message"@ {
        "El nombre `{value}` no es compatible con Discord."@
    } else if key == "invalid-command-names"@ {
        "Hay nombres de comando incompatibles con Discord."@
    } else if key == "invalid-command-names.hint"@ {
        "Usa 1-32 caracteres en lowercase, números, guiones o underscores."@
    } else if key == "decorated-base-command.message"@ {
        "La clase `{class}` está decorada pero no extiende BaseCommand."@
    } else if key == "decorated-base-command"@ {
        "Hay clases decoradas que no extienden BaseCommand."@
    } else if key == "decorated-base-command.hint"@ {
        "Extiende BaseCommand directamente o mediante una definition que lo extienda."@
    } else if key == "missing-run-method.message"@ {
        "El comando en `{file}` no implementa run()."@
    } else if key == "missing-run-method"@ {
        "Hay comandos sin método run()."@
    } else if key == "missing-run-method.hint"@ {
        "Implementa async run(): Promise<void> en el comando."@
    } else if key == "subcommand-consistency.message"@ {
        "El comando en `{file}` tiene subcomandos o grupos inconsistentes."@
    } else if key == "subcommand-consistency"@ {
        "Hay subcomandos o grupos inconsistentes."@
    } else if key == "subcommand-consistency.hint"@ {
        "Revisa parent, name y subcommand en @Subcommand o @SubcommandGroup."@
    } else if key == "ghost-parent-mix.message"@ {
        "El comando padre `{name}` está declarado como @Command y también agrupa subcomandos."@
    } else if key == "ghost-parent-mix"@ {
        "Un comando padre existe como @Command y también agrupa subcomandos."@
    } else if key == "ghost-parent-mix.hint"@ {
        "Deja que el padre sea fantasma o evita usar el mismo nombre para subcomandos."@
    } else if key == "invalid-arguments.duplicate.message"@ {
        "El argumento `{name}` está duplicado."@
    } else if key == "invalid-arguments.required-order.message"@ {
        "El argumento requerido `{name}` aparece después de uno opcional."@
    } else if key == "invalid-arguments.raw-text-position.message"@ {
        "El argumento `{name}` con rawText debe ser el último."@
    } else if key == "invalid-arguments.choice-type.message"@ {
        "La opción `{choice}` no coincide con el tipo `{type}`."@
    } else if key == "invalid-arguments"@ {
        "Hay argumentos @Arg inconsistentes."@
    } else if key == "invalid-arguments.hint"@ {
        "Evita nombres duplicados, required después de optional, rawText antes de otros args y choices incompatibles."@
    } else if key == "command-folder-convention.message"@ {
        "El comando en `{file}` no cumple la convención de carpetas."@
    } else if key == "command-folder-convention"@ {
        "Hay comandos fuera de la convención de carpetas."@
    } else if key == "command-folder-convention.hint"@ {
        "Usa src/commands/<categoria>, src/commands/<parent> o src/commands/<parent>/<group> según el tipo."@
    } else if key == "broken-alias-imports.message"@ {
        "No se pudo resolver el import `{import}`."@
    } else if key == "broken-alias-imports"@ {
        "Hay imports con alias @/ que no se pueden resolver."@
    } else if key == "broken-alias-imports.hint"@ {
        "Asegúrate de que @/ apunte a src/ y que el archivo exista."@
    } else if key == "plugin-specified-commands.message"@ {
        "PluginScope.Specified no tiene una lista de commands válida."@
    } else if key == "plugin-specified-commands"@ {
        "Hay PluginScope.Specified sin lista de commands válida."@
    } else if key == "plugin-specified-commands.hint"@ {
        "Agrega commands: [MiCommand] cuando uses PluginScope.Specified."@
    } else if key == "sharding-redis-config.redis-url.message"@ {
        "REDIS_URL no está definido o está vacío."@
    } else if key == "sharding-redis-config.missing-store.message"@ {
        "Falta el store Redis `{file}`."@
    } else if key == "sharding-redis-config"@ {
        "Sharding está habilitado sin configuración Redis completa."@
    } else if key == "sharding-redis-config.hint"@ {
        "Define REDIS_URL y conserva los stores Redis configurables del template."@
    } else if key == "component-handler-methods.message"@ {
        "No existe el método estático `{method}` para el componente."@
    } else if key == "component-handler-methods"@ {
        "Hay componentes que apuntan a métodos estáticos inexistentes."@
    } else if key == "component-handler-methods.hint"@ {
        "Agrega el método static correspondiente en la clase del comando."@
    } else if key == "feature-config.invalid-shape.message"@ {
        "`features` debe ser un objeto de flags booleanos."@
    } else if key == "feature-config.unknown.message"@ {
        "La feature `{feature}` no está soportada por este core."@
    } else if key == "feature-config.non-boolean.message"@ {
        "La feature `{feature}` debe configurarse como boolean."@
    } else if key == "feature-config"@ {
        "La configuración de features no coincide con el schema soportado."@
    } else if key == "feature-config.hint"@ {
        "Usa features conocidas, por ejemplo: { \"features\": { \"i18n\": true } }."@
    } else if key == "i18n-missing-keys.message"@ {
        "La key i18n `{key}` no existe en `{file}`."@
    } else if key == "i18n-missing-keys"@ {
        "Hay keys i18n usadas en código sin traducción."@
    } else if key == "i18n-missing-keys.hint"@ {
        "Agrega la key en todos los archivos existentes de src/i18n/locale o cambia la llamada."@
    } else if key == "i18n-dynamic-keys.message"@ {
        "Esta key i18n es dinámica y no puede validarse estáticamente."@
    } else if key == "i18n-dynamic-keys"@ {
        "Hay llamadas i18n con keys dinámicas."@
    } else if key == "i18n-dynamic-keys.hint"@ {
        "Prefiere this.t('clave.literal') para que el linter pueda validar las traducciones."@
    } else if key == "i18n-locale-parity.message"@ {
        "La key i18n `{key}` falta en el locale `{locale}`."@
    } else if key == "i18n-locale-parity"@ {
        "Los archivos de locale no tienen el mismo conjunto de keys."@
    } else if key == "i18n-locale-parity.hint"@ {
        "Mantén src/i18n/locale/es.ts, en.ts y pt.ts con las mismas keys."@
    } else if key == "doctor-env.template-missing.message"@ {
        "No se encontró .env.template."@
    } else if key == "doctor-env.env-missing.message"@ {
        "No se encontró .env."@
    } else if key == "doctor-env.required-missing.message"@ {
        "Falta la variable `{name}` en .env."@
    } else if key == "doctor-env.check.title"@ {
        "Variables de entorno"@
    } else if key == "doctor-env.detail.template-present"@ {
        ".env.template presente"@
    } else if key == "doctor-env.detail.env-present"@ {
        ".env presente"@
    } else if key == "doctor-env.detail.message-content"@ {
        "USE_MESSAGE_CONTENT=true requiere activar Message Content Intent en Discord Developer Portal"@
    } else if key == "doctor-runtime.node-version.message"@ {
        "Node.js {version} es menor a 18."@
    } else if key == "doctor-runtime.node-missing.message"@ {
        "Node.js no está instalado o no está disponible en PATH."@
    } else if key == "doctor-runtime.package-manager-missing.message"@ {
        "No se encontró `{command}` en PATH."@
    } else if key == "doctor-runtime.check.title"@ {
        "Node.js y gestor de paquetes"@
    } else if key == "doctor-runtime.detail.command-version"@ {
        "{command}: {version}"@
    } else if key == "doctor-runtime.detail.package-manager-unknown"@ {
        "package manager: desconocido"@
    } else if key == "doctor-package-json.missing.message"@ {
        "No se encontró package.json."@
    } else if key == "doctor-package-json.missing-dependency.message"@ {
        "Falta la dependencia `{dependency}`."@
    } else if key == "doctor-package-json.missing-script.message"@ {
        "Falta el script `{script}`."@
    } else if key == "doctor-package-json.check.title"@ {
        "package.json"@
    } else if key == "doctor-package-json.detail.package"@ {
        "package: {name}@{version}"@
    } else if key == "doctor-package-json.detail.scripts"@ {
        "scripts: {scripts}"@
    } else if key == "doctor-tsconfig.missing.message"@ {
        "No se encontró tsconfig.json."@
    } else if key == "doctor-tsconfig.option-required.message"@ {
        "La opción `{key}` debe estar habilitada en tsconfig.json."@
    } else if key == "doctor-tsconfig.alias-missing.message"@ {
        "Falta el alias @/* en tsconfig.json."@
    } else if key == "doctor-tsconfig.check.title"@ {
        "Configuración TypeScript"@
    } else if key == "doctor-tsconfig.detail.read"@ {
        "tsconfig.json leído"@
    } else if key == "doctor-project-config.missing.message"@ {
        "No se encontró `{path}`."@
    } else if key == "doctor-project-config.invalid-json.message"@ {
        "No se pudo leer `{path}` como JSON válido."@
    } else if key == "doctor-project-config.unsupported-lang.message"@ {
        "El idioma `{lang}` todavía no está soportado."@
    } else if key == "doctor-project-config.check.title"@ {
        ".patto/config.json"@
    } else if key == "doctor-project-config.detail.lang"@ {
        "lang: {lang}"@
    } else if key == "doctor-sharding-redis.redis-url.message"@ {
        "REDIS_URL no está definido o está vacío."@
    } else if key == "doctor-sharding-redis.missing-store.message"@ {
        "Falta el store Redis `{file}`."@
    } else if key == "doctor-sharding-redis.check.title"@ {
        "Sharding/Redis"@
    } else if key == "doctor-sharding-redis.detail.disabled"@ {
        "SHARDING_ENABLED no está activo"@
    } else if key == "doctor-sharding-redis.detail.enabled"@ {
        "SHARDING_ENABLED=true"@
    } else if key == "doctor-sharding-redis.detail.store-present"@ {
        "{file}: presente"@
    } else if key == "doctor-build-output.missing.message"@ {
        "No se encontró la salida de build en `{main}`."@
    } else if key == "doctor-build-output.check.title"@ {
        "Salida de build"@
    } else if key == "doctor-build-output.detail.main"@ {
        "main: {main}"@
    } else if key == "doctor-build-output.detail.main-missing"@ {
        "package.json no define main"@
    } else if key == "doctor-i18n.missing-file.message"@ {
        "La feature i18n está activa pero falta `{file}`."@
    } else if key == "doctor-i18n.base-command-helper.message"@ {
        "BaseCommand no expone el helper i18n `t` esperado."@
    } else if key == "doctor-i18n.check.title"@ {
        "i18n"@
    } else if key == "doctor-i18n.detail.disabled"@ {
        "features.i18n no está activo"@
    } else if key == "doctor-i18n.detail.file-present"@ {
        "{file}: presente"@
    } else if key == "doctor-i18n.detail.file-missing"@ {
        "{file}: faltante"@
    } else if key == "doctor-runtime"@ {
        "El entorno local no cumple los requisitos mínimos."@
    } else if key == "doctor-runtime.hint"@ {
        "Instala Node.js 18 o superior y el package manager del proyecto."@
    } else if key == "doctor-package-json"@ {
        "package.json no contiene la configuración esperada."@
    } else if key == "doctor-package-json.hint"@ {
        "Revisa scripts y dependencias base de Patto Bot Template."@
    } else if key == "doctor-env"@ {
        "La configuración de entorno está incompleta."@
    } else if key == "doctor-env.hint"@ {
        "Copia .env.template a .env y completa BOT_TOKEN y CLIENT_ID."@
    } else if key == "doctor-tsconfig"@ {
        "tsconfig.json no contiene opciones necesarias para Patto."@
    } else if key == "doctor-tsconfig.hint"@ {
        "Activa experimentalDecorators, emitDecoratorMetadata y el alias @/*."@
    } else if key == "doctor-project-config"@ {
        "La configuración .patto/config.json está incompleta."@
    } else if key == "doctor-project-config.hint"@ {
        "Crea .patto/config.json con lang es."@
    } else if key == "doctor-sharding-redis"@ {
        "Sharding/Redis no está configurado correctamente."@
    } else if key == "doctor-sharding-redis.hint"@ {
        "Si SHARDING_ENABLED=true, define REDIS_URL y conserva los stores Redis."@
    } else if key == "doctor-build-output"@ {
        "La salida de build no existe todavía."@
    } else if key == "doctor-build-output.hint"@ {
        "Ejecuta el script build antes de usar start en producción."@
    } else if key == "doctor-i18n"@ {
        "El entorno i18n no está completo."@
    } else if key == "doctor-i18n.hint"@ {
        "Si features.i18n está activo, conserva src/i18n, los locales es/en/pt y BaseCommand.t."@
    } else {
        ""@
    }
}

/// The Spanish text stored under `key`, or `""` for an unknown key.
#[verifier::rlimit(100)]
pub fn translate(key: &str) -> (res: &'static str)
    ensures
        res@ == es_text(key@),
{
    let k = chars_of(key);
    if chars_eq_str(&k, "patto_project_root_missing") {
        "No se encontró la raiz del proyecto."
    } else if chars_eq_str(&k, "patto_project_root_missing.hint") {
        "Ejecuta este comando dentro de un proyecto Patto o usa --root."
    } else if chars_eq_str(&k, "patto_root_not_directory") {
        "La ruta informada no es un directorio"
    } else if chars_eq_str(&k, "patto_root_not_directory.hint") {
        "Informa la ruta raíz del directorio"
    } else if chars_eq_str(&k, "patto_config_missing") {
        "No se encontró .patto/config.json."
    } else if chars_eq_str(&k, "patto_config_missing.hint") {
        "Crea .patto/config.json con { \"schemaVersion\": 1, \"lang\": \"es\" }."
    } else if chars_eq_str(&k, "patto_config_invalid") {
        "No se pudo leer .patto/config.json como JSON válido."
    } else if chars_eq_str(&k, "patto_config_invalid.hint") {
        "Revisa la sintaxis JSON del archivo de configuración."
    } else if chars_eq_str(&k, "patto_config_lang_unsupported") {
        "El idioma configurado todavía no está soportado."
    } else if chars_eq_str(&k, "patto_config_lang_unsupported.hint") {
        "Por ahora usa \"lang\": \"es\"."
    } else if chars_eq_str(&k, "patto_package_json_missing") {
        "No se encontró package.json en la raíz del proyecto."
    } else if chars_eq_str(&k, "patto_package_json_missing.hint") {
        "Ejecuta scan desde la raíz de un proyecto Patto o usa --root."
    } else if chars_eq_str(&k, "patto_commands_dir_missing") {
        "No se encontró src/commands."
    } else if chars_eq_str(&k, "patto_commands_dir_missing.hint") {
        "Un proyecto Patto debe tener sus comandos en src/commands."
    } else if chars_eq_str(&k, "patto_scan_index_write_failed") {
        "No se pudo escribir .patto/index.json."
    } else if chars_eq_str(&k, "patto_scan_index_write_failed.hint") {
        "Revisa permisos de escritura sobre la carpeta .patto."
    } else if chars_eq_str(&k, "patto_source_file_read_failed.message") {
        "No se pudo leer el archivo `{file}`."
    } else if chars_eq_str(&k, "patto_source_file_read_failed") {
        "No se pudo leer un archivo fuente del proyecto."
    } else if chars_eq_str(&k, "patto_source_file_read_failed.hint") {
        "Revisa permisos, codificación y que el archivo siga existiendo durante el análisis."
    } else if chars_eq_str(&k, "common.unknown-class") {
        "(clase desconocida)"
    } else if chars_eq_str(&k, "common.unnamed") {
        "(sin nombre)"
    } else if chars_eq_str(&k, "common.unknown-version") {
        "(sin versión)"
    } else if chars_eq_str(&k, "common.not-written") {
        "(no escrito)"
    } else if chars_eq_str(&k, "cli.scan.root-invalid") {
        "patto-core scan failed: la raíz del proyecto no es válida."
    } else if chars_eq_str(&k, "cli.scan.completed") {
        "patto-core scan completed: {files} archivos, {commands} comandos, índice en {index}."
    } else if chars_eq_str(&k, "cli.lint.root-invalid") {
        "patto-core lint failed: la raíz del proyecto no es válida."
    } else if chars_eq_str(&k, "cli.lint.completed") {
        "patto-core lint completed: {errors} errores, {warnings} advertencias, {infos} infos."
    } else if chars_eq_str(&k, "cli.check.root-invalid") {
        "patto-core check failed: la raíz del proyecto no es válida."
    } else if chars_eq_str(&k, "cli.check.completed") {
        "patto-core check completed: {errors} errores, {warnings} advertencias, {infos} infos."
    } else if chars_eq_str(&k, "cli.doctor.root-invalid") {
        "patto-core doctor failed: la raíz del proyecto no es válida."
    } else if chars_eq_str(&k, "cli.doctor.completed") {
        "patto-core doctor completed: {ok} ok, {warnings} advertencias, {errors} errores, {skipped} omitidos."
    } else if chars_eq_str(&k, "cli.format-i18n.root-invalid") {
        "patto-core format-i18n failed: la raíz del proyecto no es válida."
    } else if chars_eq_str(&k, "cli.format-i18n.completed") {
        "patto-core format-i18n completed: {formatted} formateados, {unchanged} sin cambios, {skipped} omitidos."
    } else if chars_eq_str(&k, "patto_format_i18n_locale_dir_missing") {
        "No se encontró src/i18n/locale."
    } else if chars_eq_str(&k, "patto_format_i18n_locale_dir_missing.hint") {
        "Crea los archivos de locale antes de ejecutar format-i18n."
    } else if chars_eq_str(&k, "patto_format_i18n_file_unsupported.message") {
        "No se pudo formatear `{file}` porque no tiene un export const de locale soportado."
    } else if chars_eq_str(&k, "patto_format_i18n_file_unsupported.hint") {
        "Usa archivos con forma export const es = { 'key': 'value' }."
    } else if chars_eq_str(&k, "patto_format_i18n_file_read_failed.message") {
        "No se pudo leer `{file}`."
    } else if chars_eq_str(&k, "patto_format_i18n_file_read_failed.hint") {
        "Revisa permisos y que el archivo siga existiendo."
    } else if chars_eq_str(&k, "patto_format_i18n_file_write_failed.message") {
        "No se pudo escribir `{file}`."
    } else if chars_eq_str(&k, "patto_format_i18n_file_write_failed.hint") {
        "Revisa permisos de escritura en src/i18n/locale."
    } else if chars_eq_str(&k, "patto_lint_rule_config_invalid.message") {
        "La regla `{rule}` tiene severidad inválida: `{severity}`."
    } else if chars_eq_str(&k, "patto_lint_rule_config_invalid") {
        "La configuración de lint-rules contiene una severidad inválida."
    } else if chars_eq_str(&k, "patto_lint_rule_config_invalid.hint") {
        "Usa una de estas severidades: off, info, warning o error."
    } else if chars_eq_str(&k, "duplicate-commands.message") {
        "La key de comando `{key}` está duplicada."
    } else if chars_eq_str(&k, "duplicate-commands") {
        "Hay comandos con la misma clave."
    } else if chars_eq_str(&k, "duplicate-commands.hint") {
        "Renombra uno de los comandos para que su key sea única."
    } else if chars_eq_str(&k, "duplicate-aliases.duplicate.message") {
        "El alias `{alias}` está duplicado."
    } else if chars_eq_str(&k, "duplicate-aliases.name-conflict.message") {
        "El alias `{alias}` entra en conflicto con un nombre de comando."
    } else if chars_eq_str(&k, "duplicate-aliases") {
        "Hay aliases de comando duplicados."
    } else if chars_eq_str(&k, "duplicate-aliases.hint") {
        "Cada alias debe apuntar a un solo comando base."
    } else if chars_eq_str(&k, "unknown-command-files.message") {
        "No se detectó metadata de comando en `{file}`."
    } else if chars_eq_str(&k, "unknown-command-files") {
        "Hay archivos *.command.ts sin metadata de comando detectable."
    } else if chars_eq_str(&k, "unknown-command-files.hint") {
        "Agrega @Command, @Subcommand o @SubcommandGroup, o extiende una definition decorada."
    } else if chars_eq_str(&k, "invalid-command-names.message") {
        "El nombre `{value}` no es compatible con Discord."
    } else if chars_eq_str(&k, "invalid-command-names") {
        "Hay nombres de comando incompatibles con Discord."
    } else if chars_eq_str(&k, "invalid-command-names.hint") {
        "Usa 1-32 caracteres en lowercase, números, guiones o underscores."
    } else if chars_eq_str(&k, "decorated-base-command.message") {
        "La clase `{class}` está decorada pero no extiende BaseCommand."
    } else if chars_eq_str(&k, "decorated-base-command") {
        "Hay clases decoradas que no extienden BaseCommand."
    } else if chars_eq_str(&k, "decorated-base-command.hint") {
        "Extiende BaseCommand directamente o mediante una definition que lo extienda."
    } else if chars_eq_str(&k, "missing-run-method.message") {
        "El comando en `{file}` no implementa run()."
    } else if chars_eq_str(&k, "missing-run-method") {
        "Hay comandos sin método run()."
    } else if chars_eq_str(&k, "missing-run-method.hint") {
        "Implementa async run(): Promise<void> en el comando."
    } else if chars_eq_str(&k, "subcommand-consistency.message") {
        "El comando en `{file}` tiene subcomandos o grupos inconsistentes."
    } else if chars_eq_str(&k, "subcommand-consistency") {
        "Hay subcomandos o grupos inconsistentes."
    } else if chars_eq_str(&k, "subcommand-consistency.hint") {
        "Revisa parent, name y subcommand en @Subcommand o @SubcommandGroup."
    } else if chars_eq_str(&k, "ghost-parent-mix.message") {
        "El comando padre `{name}` está declarado como @Command y también agrupa subcomandos."
    } else if chars_eq_str(&k, "ghost-parent-mix") {
        "Un comando padre existe como @Command y también agrupa subcomandos."
    } else if chars_eq_str(&k, "ghost-parent-mix.hint") {
        "Deja que el padre sea fantasma o evita usar el mismo nombre para subcomandos."
    } else if chars_eq_str(&k, "invalid-arguments.duplicate.message") {
        "El argumento `{name}` está duplicado."
    } else if chars_eq_str(&k, "invalid-arguments.required-order.message") {
        "El argumento requerido `{name}` aparece después de uno opcional."
    } else if chars_eq_str(&k, "invalid-arguments.raw-text-position.message") {
        "El argumento `{name}` con rawText debe ser el último."
    } else if chars_eq_str(&k, "invalid-arguments.choice-type.message") {
        "La opción `{choice}` no coincide con el tipo `{type}`."
    } else if chars_eq_str(&k, "invalid-arguments") {
        "Hay argumentos @Arg inconsistentes."
    } else if chars_eq_str(&k, "invalid-arguments.hint") {
        "Evita nombres duplicados, required después de optional, rawText antes de otros args y choices incompatibles."
    } else if chars_eq_str(&k, "command-folder-convention.message") {
        "El comando en `{file}` no cumple la convención de carpetas."
    } else if chars_eq_str(&k, "command-folder-convention") {
        "Hay comandos fuera de la convención de carpetas."
    } else if chars_eq_str(&k, "command-folder-convention.hint") {
        "Usa src/commands/<categoria>, src/commands/<parent> o src/commands/<parent>/<group> según el tipo."
    } else if chars_eq_str(&k, "broken-alias-imports.message") {
        "No se pudo resolver el import `{import}`."
    } else if chars_eq_str(&k, "broken-alias-imports") {
        "Hay imports con alias @/ que no se pueden resolver."
    } else if chars_eq_str(&k, "broken-alias-imports.hint") {
        "Asegúrate de que @/ apunte a src/ y que el archivo exista."
    } else if chars_eq_str(&k, "plugin-specified-commands.message") {
        "PluginScope.Specified no tiene una lista de commands válida."
    } else if chars_eq_str(&k, "plugin-specified-commands") {
        "Hay PluginScope.Specified sin lista de commands válida."
    } else if chars_eq_str(&k, "plugin-specified-commands.hint") {
        "Agrega commands: [MiCommand] cuando uses PluginScope.Specified."
    } else if chars_eq_str(&k, "sharding-redis-config.redis-url.message") {
        "REDIS_URL no está definido o está vacío."
    } else if chars_eq_str(&k, "sharding-redis-config.missing-store.message") {
        "Falta el store Redis `{file}`."
    } else if chars_eq_str(&k, "sharding-redis-config") {
        "Sharding está habilitado sin configuración Redis completa."
    } else if chars_eq_str(&k, "sharding-redis-config.hint") {
        "Define REDIS_URL y conserva los stores Redis configurables del template."
    } else if chars_eq_str(&k, "component-handler-methods.message") {
        "No existe el método estático `{method}` para el componente."
    } else if chars_eq_str(&k, "component-handler-methods") {
        "Hay componentes que apuntan a métodos estáticos inexistentes."
    } else if chars_eq_str(&k, "component-handler-methods.hint") {
        "Agrega el método static correspondiente en la clase del comando."
    } else if chars_eq_str(&k, "feature-config.invalid-shape.message") {
        "`features` debe ser un objeto de flags booleanos."
    } else if chars_eq_str(&k, "feature-config.unknown.message") {
        "La feature `{feature}` no está soportada por este core."
    } else if chars_eq_str(&k, "feature-config.non-boolean.message") {
        "La feature `{feature}` debe configurarse como boolean."
    } else if chars_eq_str(&k, "feature-config") {
        "La configuración de features no coincide con el schema soportado."
    } else if chars_eq_str(&k, "feature-config.hint") {
        "Usa features conocidas, por ejemplo: { \"features\": { \"i18n\": true } }."
    } else if chars_eq_str(&k, "i18n-missing-keys.message") {
        "La key i18n `{key}` no existe en `{file}`."
    } else if chars_eq_str(&k, "i18n-missing-keys") {
        "Hay keys i18n usadas en código sin traducción."
    } else if chars_eq_str(&k, "i18n-missing-keys.hint") {
        "Agrega la key en todos los archivos existentes de src/i18n/locale o cambia la llamada."
    } else if chars_eq_str(&k, "i18n-dynamic-keys.message") {
        "Esta key i18n es dinámica y no puede validarse estáticamente."
    } else if chars_eq_str(&k, "i18n-dynamic-keys") {
        "Hay llamadas i18n con keys dinámicas."
    } else if chars_eq_str(&k, "i18n-dynamic-keys.hint") {
        "Prefiere this.t('clave.literal') para que el linter pueda validar las traducciones."
    } else if chars_eq_str(&k, "i18n-locale-parity.message") {
        "La key i18n `{key}` falta en el locale `{locale}`."
    } else if chars_eq_str(&k, "i18n-locale-parity") {
        "Los archivos de locale no tienen el mismo conjunto de keys."
    } else if chars_eq_str(&k, "i18n-locale-parity.hint") {
        "Mantén src/i18n/locale/es.ts, en.ts y pt.ts con las mismas keys."
    } else if chars_eq_str(&k, "doctor-env.template-missing.message") {
        "No se encontró .env.template."
    } else if chars_eq_str(&k, "doctor-env.env-missing.message") {
        "No se encontró .env."
    } else if chars_eq_str(&k, "doctor-env.required-missing.message") {
        "Falta la variable `{name}` en .env."
    } else if chars_eq_str(&k, "doctor-env.check.title") {
        "Variables de entorno"
    } else if chars_eq_str(&k, "doctor-env.detail.template-present") {
        ".env.template presente"
    } else if chars_eq_str(&k, "doctor-env.detail.env-present") {
        ".env presente"
    } else if chars_eq_str(&k, "doctor-env.detail.message-content") {
        "USE_MESSAGE_CONTENT=true requiere activar Message Content Intent en Discord Developer Portal"
    } else if chars_eq_str(&k, "doctor-runtime.node-version.message") {
        "Node.js {version} es menor a 18."
    } else if chars_eq_str(&k, "doctor-runtime.node-missing.message") {
        "Node.js no está instalado o no está disponible en PATH."
    } else if chars_eq_str(&k, "doctor-runtime.package-manager-missing.message") {
        "No se encontró `{command}` en PATH."
    } else if chars_eq_str(&k, "doctor-runtime.check.title") {
        "Node.js y gestor de paquetes"
    } else if chars_eq_str(&k, "doctor-runtime.detail.command-version") {
        "{command}: {version}"
    } else if chars_eq_str(&k, "doctor-runtime.detail.package-manager-unknown") {
        "package manager: desconocido"
    } else if chars_eq_str(&k, "doctor-package-json.missing.message") {
        "No se encontró package.json."
    } else if chars_eq_str(&k, "doctor-package-json.missing-dependency.message") {
        "Falta la dependencia `{dependency}`."
    } else if chars_eq_str(&k, "doctor-package-json.missing-script.message") {
        "Falta el script `{script}`."
    } else if chars_eq_str(&k, "doctor-package-json.check.title") {
        "package.json"
    } else if chars_eq_str(&k, "doctor-package-json.detail.package") {
        "package: {name}@{version}"
    } else if chars_eq_str(&k, "doctor-package-json.detail.scripts") {
        "scripts: {scripts}"
    } else if chars_eq_str(&k, "doctor-tsconfig.missing.message") {
        "No se encontró tsconfig.json."
    } else if chars_eq_str(&k, "doctor-tsconfig.option-required.message") {
        "La opción `{key}` debe estar habilitada en tsconfig.json."
    } else if chars_eq_str(&k, "doctor-tsconfig.alias-missing.message") {
        "Falta el alias @/* en tsconfig.json."
    } else if chars_eq_str(&k, "doctor-tsconfig.check.title") {
        "Configuración TypeScript"
    } else if chars_eq_str(&k, "doctor-tsconfig.detail.read") {
        "tsconfig.json leído"
    } else if chars_eq_str(&k, "doctor-project-config.missing.message") {
        "No se encontró `{path}`."
    } else if chars_eq_str(&k, "doctor-project-config.invalid-json.message") {
        "No se pudo leer `{path}` como JSON válido."
    } else if chars_eq_str(&k, "doctor-project-config.unsupported-lang.message") {
        "El idioma `{lang}` todavía no está soportado."
    } else if chars_eq_str(&k, "doctor-project-config.check.title") {
        ".patto/config.json"
    } else if chars_eq_str(&k, "doctor-project-config.detail.lang") {
        "lang: {lang}"
    } else if chars_eq_str(&k, "doctor-sharding-redis.redis-url.message") {
        "REDIS_URL no está definido o está vacío."
    } else if chars_eq_str(&k, "doctor-sharding-redis.missing-store.message") {
        "Falta el store Redis `{file}`."
    } else if chars_eq_str(&k, "doctor-sharding-redis.check.title") {
        "Sharding/Redis"
    } else if chars_eq_str(&k, "doctor-sharding-redis.detail.disabled") {
        "SHARDING_ENABLED no está activo"
    } else if chars_eq_str(&k, "doctor-sharding-redis.detail.enabled") {
        "SHARDING_ENABLED=true"
    } else if chars_eq_str(&k, "doctor-sharding-redis.detail.store-present") {
        "{file}: presente"
    } else if chars_eq_str(&k, "doctor-build-output.missing.message") {
        "No se encontró la salida de build en `{main}`."
    } else if chars_eq_str(&k, "doctor-build-output.check.title") {
        "Salida de build"
    } else if chars_eq_str(&k, "doctor-build-output.detail.main") {
        "main: {main}"
    } else if chars_eq_str(&k, "doctor-build-output.detail.main-missing") {
        "package.json no define main"
    } else if chars_eq_str(&k, "doctor-i18n.missing-file.message") {
        "La feature i18n está activa pero falta `{file}`."
    } else if chars_eq_str(&k, "doctor-i18n.base-command-helper.message") {
        "BaseCommand no expone el helper i18n `t` esperado."
    } else if chars_eq_str(&k, "doctor-i18n.check.title") {
        "i18n"
    } else if chars_eq_str(&k, "doctor-i18n.detail.disabled") {
        "features.i18n no está activo"
    } else if chars_eq_str(&k, "doctor-i18n.detail.file-present") {
        "{file}: presente"
    } else if chars_eq_str(&k, "doctor-i18n.detail.file-missing") {
        "{file}: faltante"
    } else if chars_eq_str(&k, "doctor-runtime") {
        "El entorno local no cumple los requisitos mínimos."
    } else if chars_eq_str(&k, "doctor-runtime.hint") {
        "Instala Node.js 18 o superior y el package manager del proyecto."
    } else if chars_eq_str(&k, "doctor-package-json") {
        "package.json no contiene la configuración esperada."
    } else if chars_eq_str(&k, "doctor-package-json.hint") {
        "Revisa scripts y dependencias base de Patto Bot Template."
    } else if chars_eq_str(&k, "doctor-env") {
        "La configuración de entorno está incompleta."
    } else if chars_eq_str(&k, "doctor-env.hint") {
        "Copia .env.template a .env y completa BOT_TOKEN y CLIENT_ID."
    } else if chars_eq_str(&k, "doctor-tsconfig") {
        "tsconfig.json no contiene opciones necesarias para Patto."
    } else if chars_eq_str(&k, "doctor-tsconfig.hint") {
        "Activa experimentalDecorators, emitDecoratorMetadata y el alias @/*."
    } else if chars_eq_str(&k, "doctor-project-config") {
        "La configuración .patto/config.json está incompleta."
    } else if chars_eq_str(&k, "doctor-project-config.hint") {
        "Crea .patto/config.json con lang es."
    } else if chars_eq_str(&k, "doctor-sharding-redis") {
        "Sharding/Redis no está configurado correctamente."
    } else if chars_eq_str(&k, "doctor-sharding-redis.hint") {
        "Si SHARDING_ENABLED=true, define REDIS_URL y conserva los stores Redis."
    } else if chars_eq_str(&k, "doctor-build-output") {
        "La salida de build no existe todavía."
    } else if chars_eq_str(&k, "doctor-build-output.hint") {
        "Ejecuta el script build antes de usar start en producción."
    } else if chars_eq_str(&k, "doctor-i18n") {
        "El entorno i18n no está completo."
    } else if chars_eq_str(&k, "doctor-i18n.hint") {
        "Si features.i18n está activo, conserva src/i18n, los locales es/en/pt y BaseCommand.t."
    } else {
        ""
    }
}

/// The codes of the diagnostics this tool reports, each with whether its
/// message is stored under `code.message` (a message that names a file) in
/// place of the code itself.
pub open spec fn reported_codes() -> Seq<(Seq<char>, bool)> {
    seq![
        ("patto_project_root_missing"@, false),
        ("patto_root_not_directory"@, false),
        ("patto_config_missing"@, false),
        ("patto_config_invalid"@, false),
        ("patto_config_lang_unsupported"@, false),
        ("patto_package_json_missing"@, false),
        ("patto_commands_dir_missing"@, false),
        ("patto_scan_index_write_failed"@, false),
        ("patto_source_file_read_failed"@, false),
        ("patto_lint_rule_config_invalid"@, false),
        ("patto_format_i18n_locale_dir_missing"@, false),
        ("patto_format_i18n_file_unsupported"@, true),
        ("patto_format_i18n_file_read_failed"@, true),
        ("patto_format_i18n_file_write_failed"@, true),
        ("duplicate-commands"@, false),
        ("duplicate-aliases"@, false),
        ("unknown-command-files"@, false),
        ("invalid-command-names"@, false),
        ("decorated-base-command"@, false),
        ("missing-run-method"@, false),
        ("subcommand-consistency"@, false),
        ("ghost-parent-mix"@, false),
        ("invalid-arguments"@, false),
        ("command-folder-convention"@, false),
        ("broken-alias-imports"@, false),
        ("plugin-specified-commands"@, false),
        ("sharding-redis-config"@, false),
        ("component-handler-methods"@, false),
        ("feature-config"@, false),
        ("i18n-missing-keys"@, false),
        ("i18n-dynamic-keys"@, false),
        ("i18n-locale-parity"@, false),
        ("doctor-runtime"@, false),
        ("doctor-package-json"@, false),
        ("doctor-env"@, false),
        ("doctor-tsconfig"@, false),
        ("doctor-project-config"@, false),
        ("doctor-sharding-redis"@, false),
        ("doctor-build-output"@, false),
        ("doctor-i18n"@, false),
    ]
}

/// The catalogue key of the message of a reported code.
pub open spec fn message_key(entry: (Seq<char>, bool)) -> Seq<char> {
    if entry.1 {
        entry.0 + ".message"@
    } else {
        entry.0
    }
}

/// Law: every diagnostic code this tool reports has a message and a hint in
/// the catalogue, and neither is empty.
#[verifier::rlimit(100)]
pub proof fn law_codes_have_texts(i: int)
    requires
        0 <= i < reported_codes().len(),
    ensures
        es_text(message_key(reported_codes()[i])).len() > 0,
        es_text(hint_key(reported_codes()[i].0)).len() > 0,
{
    reveal_strlit(".hint");
    reveal_strlit(".message");
    reveal_strlit("No se encontró la raiz del proyecto.");
    reveal_strlit("Ejecuta este comando dentro de un proyecto Patto o usa --root.");
    reveal_strlit("La ruta informada no es un directorio");
    reveal_strlit("Informa la ruta raíz del directorio");
    reveal_strlit("No se encontró .patto/config.json.");
    reveal_strlit("Crea .patto/config.json con { \"schemaVersion\": 1, \"lang\": \"es\" }.");
    reveal_strlit("No se pudo leer .patto/config.json como JSON válido.");
    reveal_strlit("Revisa la sintaxis JSON del archivo de configuración.");
    reveal_strlit("El idioma configurado todavía no está soportado.");
    reveal_strlit("Por ahora usa \"lang\": \"es\".");
    reveal_strlit("No se encontró package.json en la raíz del proyecto.");
    reveal_strlit("Ejecuta scan desde la raíz de un proyecto Patto o usa --root.");
    reveal_strlit("No se encontró src/commands.");
    reveal_strlit("Un proyecto Patto debe tener sus comandos en src/commands.");
    reveal_strlit("No se pudo escribir .patto/index.json.");
    reveal_strlit("Revisa permisos de escritura sobre la carpeta .patto.");
    reveal_strlit("No se pudo leer el archivo `{file}`.");
    reveal_strlit("No se pudo leer un archivo fuente del proyecto.");
    reveal_strlit("Revisa permisos, codificación y que el archivo siga existiendo durante el análisis.");
    reveal_strlit("(clase desconocida)");
    reveal_strlit("(sin nombre)");
    reveal_strlit("(sin versión)");
    reveal_strlit("(no escrito)");
    reveal_strlit("patto-core scan failed: la raíz del proyecto no es válida.");
    reveal_strlit("patto-core scan completed: {files} archivos, {commands} comandos, índice en {index}.");
    reveal_strlit("patto-core lint failed: la raíz del proyecto no es válida.");
    reveal_strlit("patto-core lint completed: {errors} errores, {warnings} advertencias, {infos} infos.");
    reveal_strlit("patto-core check failed: la raíz del proyecto no es válida.");
    reveal_strlit("patto-core check completed: {errors} errores, {warnings} advertencias, {infos} infos.");
    reveal_strlit("patto-core doctor failed: la raíz del proyecto no es válida.");
    reveal_strlit("patto-core doctor completed: {ok} ok, {warnings} advertencias, {errors} errores, {skipped} omitidos.");
    reveal_strlit("patto-core format-i18n failed: la raíz del proyecto no es válida.");
    reveal_strlit("patto-core format-i18n completed: {formatted} formateados, {unchanged} sin cambios, {skipped} omitidos.");
    reveal_strlit("No se encontró src/i18n/locale.");
    reveal_strlit("Crea los archivos de locale antes de ejecutar format-i18n.");
    reveal_strlit("No se pudo formatear `{file}` porque no tiene un export const de locale soportado.");
    reveal_strlit("Usa archivos con forma export const es = { 'key': 'value' }.");
    reveal_strlit("No se pudo leer `{file}`.");
    reveal_strlit("Revisa permisos y que el archivo siga existiendo.");
    reveal_strlit("No se pudo escribir `{file}`.");
    reveal_strlit("Revisa permisos de escritura en src/i18n/locale.");
    reveal_strlit("La regla `{rule}` tiene severidad inválida: `{severity}`.");
    reveal_strlit("La configuración de lint-rules contiene una severidad inválida.");
    reveal_strlit("Usa una de estas severidades: off, info, warning o error.");
    reveal_strlit("La key de comando `{key}` está duplicada.");
    reveal_strlit("Hay comandos con la misma clave.");
    reveal_strlit("Renombra uno de los comandos para que su key sea única.");
    reveal_strlit("El alias `{alias}` está duplicado.");
    reveal_strlit("El alias `{alias}` entra en conflicto con un nombre de comando.");
    reveal_strlit("Hay aliases de comando duplicados.");
    reveal_strlit("Cada alias debe apuntar a un solo comando base.");
    reveal_strlit("No se detectó metadata de comando en `{file}`.");
    reveal_strlit("Hay archivos *.command.ts sin metadata de comando detectable.");
    reveal_strlit("Agrega @Command, @Subcommand o @SubcommandGroup, o extiende una definition decorada.");
    reveal_strlit("El nombre `{value}` no es compatible con Discord.");
    reveal_strlit("Hay nombres de comando incompatibles con Discord.");
    reveal_strlit("Usa 1-32 caracteres en lowercase, números, guiones o underscores.");
    reveal_strlit("La clase `{class}` está decorada pero no extiende BaseCommand.");
    reveal_strlit("Hay clases decoradas que no extienden BaseCommand.");
    reveal_strlit("Extiende BaseCommand directamente o mediante una definition que lo extienda.");
    reveal_strlit("El comando en `{file}` no implementa run().");
    reveal_strlit("Hay comandos sin método run().");
    reveal_strlit("Implementa async run(): Promise<void> en el comando.");
    reveal_strlit("El comando en `{file}` tiene subcomandos o grupos inconsistentes.");
    reveal_strlit("Hay subcomandos o grupos inconsistentes.");
    reveal_strlit("Revisa parent, name y subcommand en @Subcommand o @SubcommandGroup.");
    reveal_strlit("El comando padre `{name}` está declarado como @Command y también agrupa subcomandos.");
    reveal_strlit("Un comando padre existe como @Command y también agrupa subcomandos.");
    reveal_strlit("Deja que el padre sea fantasma o evita usar el mismo nombre para subcomandos.");
    reveal_strlit("El argumento `{name}` está duplicado.");
    reveal_strlit("El argumento requerido `{name}` aparece después de uno opcional.");
    reveal_strlit("El argumento `{name}` con rawText debe ser el último.");
    reveal_strlit("La opción `{choice}` no coincide con el tipo `{type}`.");
    reveal_strlit("Hay argumentos @Arg inconsistentes.");
    reveal_strlit("Evita nombres duplicados, required después de optional, rawText antes de otros args y choices incompatibles.");
    reveal_strlit("El comando en `{file}` no cumple la convención de carpetas.");
    reveal_strlit("Hay comandos fuera de la convención de carpetas.");
    reveal_strlit("Usa src/commands/<categoria>, src/commands/<parent> o src/commands/<parent>/<group> según el tipo.");
    reveal_strlit("No se pudo resolver el import `{import}`.");
    reveal_strlit("Hay imports con alias @/ que no se pueden resolver.");
    reveal_strlit("Asegúrate de que @/ apunte a src/ y que el archivo exista.");
    reveal_strlit("PluginScope.Specified no tiene una lista de commands válida.");
    reveal_strlit("Hay PluginScope.Specified sin lista de commands válida.");
    reveal_strlit("Agrega commands: [MiCommand] cuando uses PluginScope.Specified.");
    reveal_strlit("REDIS_URL no está definido o está vacío.");
    reveal_strlit("Falta el store Redis `{file}`.");
    reveal_strlit("Sharding está habilitado sin configuración Redis completa.");
    reveal_strlit("Define REDIS_URL y conserva los stores Redis configurables del template.");
    reveal_strlit("No existe el método estático `{method}` para el componente.");
    reveal_strlit("Hay componentes que apuntan a métodos estáticos inexistentes.");
    reveal_strlit("Agrega el método static correspondiente en la clase del comando.");
    reveal_strlit("`features` debe ser un objeto de flags booleanos.");
    reveal_strlit("La feature `{feature}` no está soportada por este core.");
    reveal_strlit("La feature `{feature}` debe configurarse como boolean.");
    reveal_strlit("La configuración de features no coincide con el schema soportado.");
    reveal_strlit("Usa features conocidas, por ejemplo: { \"features\": { \"i18n\": true } }.");
    reveal_strlit("La key i18n `{key}` no existe en `{file}`.");
    reveal_strlit("Hay keys i18n usadas en código sin traducción.");
    reveal_strlit("Agrega la key en todos los archivos existentes de src/i18n/locale o cambia la llamada.");
    reveal_strlit("Esta key i18n es dinámica y no puede validarse estáticamente.");
    reveal_strlit("Hay llamadas i18n con keys dinámicas.");
    reveal_strlit("Prefiere this.t('clave.literal') para que el linter pueda validar las traducciones.");
    reveal_strlit("La key i18n `{key}` falta en el locale `{locale}`.");
    reveal_strlit("Los archivos de locale no tienen el mismo conjunto de keys.");
    reveal_strlit("Mantén src/i18n/locale/es.ts, en.ts y pt.ts con las mismas keys.");
    reveal_strlit("No se encontró .env.template.");
    reveal_strlit("No se encontró .env.");
    reveal_strlit("Falta la variable `{name}` en .env.");
    reveal_strlit("Variables de entorno");
    reveal_strlit(".env.template presente");
    reveal_strlit(".env presente");
    reveal_strlit("USE_MESSAGE_CONTENT=true requiere activar Message Content Intent en Discord Developer Portal");
    reveal_strlit("Node.js {version} es menor a 18.");
    reveal_strlit("Node.js no está instalado o no está disponible en PATH.");
    reveal_strlit("No se encontró `{command}` en PATH.");
    reveal_strlit("Node.js y gestor de paquetes");
    reveal_strlit("{command}: {version}");
    reveal_strlit("package manager: desconocido");
    reveal_strlit("No se encontró package.json.");
    reveal_strlit("Falta la dependencia `{dependency}`.");
    reveal_strlit("Falta el script `{script}`.");
    reveal_strlit("package.json");
    reveal_strlit("package: {name}@{version}");
    reveal_strlit("scripts: {scripts}");
    reveal_strlit("No se encontró tsconfig.json.");
    reveal_strlit("La opción `{key}` debe estar habilitada en tsconfig.json.");
    reveal_strlit("Falta el alias @/* en tsconfig.json.");
    reveal_strlit("Configuración TypeScript");
    reveal_strlit("tsconfig.json leído");
    reveal_strlit("No se encontró `{path}`.");
    reveal_strlit("No se pudo leer `{path}` como JSON válido.");
    reveal_strlit("El idioma `{lang}` todavía no está soportado.");
    reveal_strlit(".patto/config.json");
    reveal_strlit("lang: {lang}");
    reveal_strlit("REDIS_URL no está definido o está vacío.");
    reveal_strlit("Falta el store Redis `{file}`.");
    reveal_strlit("Sharding/Redis");
    reveal_strlit("SHARDING_ENABLED no está activo");
    reveal_strlit("SHARDING_ENABLED=true");
    reveal_strlit("{file}: presente");
    reveal_strlit("No se encontró la salida de build en `{main}`.");
    reveal_strlit("Salida de build");
    reveal_strlit("main: {main}");
    reveal_strlit("package.json no define main");
    reveal_strlit("La feature i18n está activa pero falta `{file}`.");
    reveal_strlit("BaseCommand no expone el helper i18n `t` esperado.");
    reveal_strlit("i18n");
    reveal_strlit("features.i18n no está activo");
    reveal_strlit("{file}: presente");
    reveal_strlit("{file}: faltante");
    reveal_strlit("El entorno local no cumple los requisitos mínimos.");
    reveal_strlit("Instala Node.js 18 o superior y el package manager del proyecto.");
    reveal_strlit("package.json no contiene la configuración esperada.");
    reveal_strlit("Revisa scripts y dependencias base de Patto Bot Template.");
    reveal_strlit("La configuración de entorno está incompleta.");
    reveal_strlit("Copia .env.template a .env y completa BOT_TOKEN y CLIENT_ID.");
    reveal_strlit("tsconfig.json no contiene opciones necesarias para Patto.");
    reveal_strlit("Activa experimentalDecorators, emitDecoratorMetadata y el alias @/*.");
    reveal_strlit("La configuración .patto/config.json está incompleta.");
    reveal_strlit("Crea .patto/config.json con lang es.");
    reveal_strlit("Sharding/Redis no está configurado correctamente.");
    reveal_strlit("Si SHARDING_ENABLED=true, define REDIS_URL y conserva los stores Redis.");
    reveal_strlit("La salida de build no existe todavía.");
    reveal_strlit("Ejecuta el script build antes de usar start en producción.");
    reveal_strlit("El entorno i18n no está completo.");
    reveal_strlit("Si features.i18n está activo, conserva src/i18n, los locales es/en/pt y BaseCommand.t.");
    let entry = reported_codes()[i];
    if i == 0 {
        reveal_strlit("patto_project_root_missing");
        reveal_strlit("patto_project_root_missing.hint");
        assert(hint_key("patto_project_root_missing"@) =~= "patto_project_root_missing.hint"@);
    } else if i == 1 {
        reveal_strlit("patto_root_not_directory");
        reveal_strlit("patto_root_not_directory.hint");
        assert(hint_key("patto_root_not_directory"@) =~= "patto_root_not_directory.hint"@);
    } else if i == 2 {
        reveal_strlit("patto_config_missing");
        reveal_strlit("patto_config_missing.hint");
        assert(hint_key("patto_config_missing"@) =~= "patto_config_missing.hint"@);
    } else if i == 3 {
        reveal_strlit("patto_config_invalid");
        reveal_strlit("patto_config_invalid.hint");
        assert(hint_key("patto_config_invalid"@) =~= "patto_config_invalid.hint"@);
    } else if i == 4 {
        reveal_strlit("patto_config_lang_unsupported");
        reveal_strlit("patto_config_lang_unsupported.hint");
        assert(hint_key("patto_config_lang_unsupported"@) =~= "patto_config_lang_unsupported.hint"@);
    } else if i == 5 {
        reveal_strlit("patto_package_json_missing");
        reveal_strlit("patto_package_json_missing.hint");
        assert(hint_key("patto_package_json_missing"@) =~= "patto_package_json_missing.hint"@);
    } else if i == 6 {
        reveal_strlit("patto_commands_dir_missing");
        reveal_strlit("patto_commands_dir_missing.hint");
        assert(hint_key("patto_commands_dir_missing"@) =~= "patto_commands_dir_missing.hint"@);
    } else if i == 7 {
        reveal_strlit("patto_scan_index_write_failed");
        reveal_strlit("patto_scan_index_write_failed.hint");
        assert(hint_key("patto_scan_index_write_failed"@) =~= "patto_scan_index_write_failed.hint"@);
    } else if i == 8 {
        reveal_strlit("patto_source_file_read_failed");
        reveal_strlit("patto_source_file_read_failed.hint");
        assert(hint_key("patto_source_file_read_failed"@) =~= "patto_source_file_read_failed.hint"@);
    } else if i == 9 {
        reveal_strlit("patto_lint_rule_config_invalid");
        reveal_strlit("patto_lint_rule_config_invalid.hint");
        assert(hint_key("patto_lint_rule_config_invalid"@) =~= "patto_lint_rule_config_invalid.hint"@);
    } else if i == 10 {
        reveal_strlit("patto_format_i18n_locale_dir_missing");
        reveal_strlit("patto_format_i18n_locale_dir_missing.hint");
        assert(hint_key("patto_format_i18n_locale_dir_missing"@) =~= "patto_format_i18n_locale_dir_missing.hint"@);
    } else if i == 11 {
        reveal_strlit("patto_format_i18n_file_unsupported");
        reveal_strlit("patto_format_i18n_file_unsupported.hint");
        assert(hint_key("patto_format_i18n_file_unsupported"@) =~= "patto_format_i18n_file_unsupported.hint"@);
        reveal_strlit("patto_format_i18n_file_unsupported.message");
        assert("patto_format_i18n_file_unsupported"@ + ".message"@ =~= "patto_format_i18n_file_unsupported.message"@);
    } else if i == 12 {
        reveal_strlit("patto_format_i18n_file_read_failed");
        reveal_strlit("patto_format_i18n_file_read_failed.hint");
        assert(hint_key("patto_format_i18n_file_read_failed"@) =~= "patto_format_i18n_file_read_failed.hint"@);
        reveal_strlit("patto_format_i18n_file_read_failed.message");
        assert("patto_format_i18n_file_read_failed"@ + ".message"@ =~= "patto_format_i18n_file_read_failed.message"@);
    } else if i == 13 {
        reveal_strlit("patto_format_i18n_file_write_failed");
        reveal_strlit("patto_format_i18n_file_write_failed.hint");
        assert(hint_key("patto_format_i18n_file_write_failed"@) =~= "patto_format_i18n_file_write_failed.hint"@);
        reveal_strlit("patto_format_i18n_file_write_failed.message");
        assert("patto_format_i18n_file_write_failed"@ + ".message"@ =~= "patto_format_i18n_file_write_failed.message"@);
    } else if i == 14 {
        reveal_strlit("duplicate-commands");
        reveal_strlit("duplicate-commands.hint");
        assert(hint_key("duplicate-commands"@) =~= "duplicate-commands.hint"@);
    } else if i == 15 {
        reveal_strlit("duplicate-aliases");
        reveal_strlit("duplicate-aliases.hint");
        assert(hint_key("duplicate-aliases"@) =~= "duplicate-aliases.hint"@);
    } else if i == 16 {
        reveal_strlit("unknown-command-files");
        reveal_strlit("unknown-command-files.hint");
        assert(hint_key("unknown-command-files"@) =~= "unknown-command-files.hint"@);
    } else if i == 17 {
        reveal_strlit("invalid-command-names");
        reveal_strlit("invalid-command-names.hint");
        assert(hint_key("invalid-command-names"@) =~= "invalid-command-names.hint"@);
    } else if i == 18 {
        reveal_strlit("decorated-base-command");
        reveal_strlit("decorated-base-command.hint");
        assert(hint_key("decorated-base-command"@) =~= "decorated-base-command.hint"@);
    } else if i == 19 {
        reveal_strlit("missing-run-method");
        reveal_strlit("missing-run-method.hint");
        assert(hint_key("missing-run-method"@) =~= "missing-run-method.hint"@);
    } else if i == 20 {
        reveal_strlit("subcommand-consistency");
        reveal_strlit("subcommand-consistency.hint");
        assert(hint_key("subcommand-consistency"@) =~= "subcommand-consistency.hint"@);
    } else if i == 21 {
        reveal_strlit("ghost-parent-mix");
        reveal_strlit("ghost-parent-mix.hint");
        assert(hint_key("ghost-parent-mix"@) =~= "ghost-parent-mix.hint"@);
    } else if i == 22 {
        reveal_strlit("invalid-arguments");
        reveal_strlit("invalid-arguments.hint");
        assert(hint_key("invalid-arguments"@) =~= "invalid-arguments.hint"@);
    } else if i == 23 {
        reveal_strlit("command-folder-convention");
        reveal_strlit("command-folder-convention.hint");
        assert(hint_key("command-folder-convention"@) =~= "command-folder-convention.hint"@);
    } else if i == 24 {
        reveal_strlit("broken-alias-imports");
        reveal_strlit("broken-alias-imports.hint");
        assert(hint_key("broken-alias-imports"@) =~= "broken-alias-imports.hint"@);
    } else if i == 25 {
        reveal_strlit("plugin-specified-commands");
        reveal_strlit("plugin-specified-commands.hint");
        assert(hint_key("plugin-specified-commands"@) =~= "plugin-specified-commands.hint"@);
    } else if i == 26 {
        reveal_strlit("sharding-redis-config");
        reveal_strlit("sharding-redis-config.hint");
        assert(hint_key("sharding-redis-config"@) =~= "sharding-redis-config.hint"@);
    } else if i == 27 {
        reveal_strlit("component-handler-methods");
        reveal_strlit("component-handler-methods.hint");
        assert(hint_key("component-handler-methods"@) =~= "component-handler-methods.hint"@);
    } else if i == 28 {
        reveal_strlit("feature-config");
        reveal_strlit("feature-config.hint");
        assert(hint_key("feature-config"@) =~= "feature-config.hint"@);
    } else if i == 29 {
        reveal_strlit("i18n-missing-keys");
        reveal_strlit("i18n-missing-keys.hint");
        assert(hint_key("i18n-missing-keys"@) =~= "i18n-missing-keys.hint"@);
    } else if i == 30 {
        reveal_strlit("i18n-dynamic-keys");
        reveal_strlit("i18n-dynamic-keys.hint");
        assert(hint_key("i18n-dynamic-keys"@) =~= "i18n-dynamic-keys.hint"@);
    } else if i == 31 {
        reveal_strlit("i18n-locale-parity");
        reveal_strlit("i18n-locale-parity.hint");
        assert(hint_key("i18n-locale-parity"@) =~= "i18n-locale-parity.hint"@);
    } else if i == 32 {
        reveal_strlit("doctor-runtime");
        reveal_strlit("doctor-runtime.hint");
        assert(hint_key("doctor-runtime"@) =~= "doctor-runtime.hint"@);
    } else if i == 33 {
        reveal_strlit("doctor-package-json");
        reveal_strlit("doctor-package-json.hint");
        assert(hint_key("doctor-package-json"@) =~= "doctor-package-json.hint"@);
    } else if i == 34 {
        reveal_strlit("doctor-env");
        reveal_strlit("doctor-env.hint");
        assert(hint_key("doctor-env"@) =~= "doctor-env.hint"@);
    } else if i == 35 {
        reveal_strlit("doctor-tsconfig");
        reveal_strlit("doctor-tsconfig.hint");
        assert(hint_key("doctor-tsconfig"@) =~= "doctor-tsconfig.hint"@);
    } else if i == 36 {
        reveal_strlit("doctor-project-config");
        reveal_strlit("doctor-project-config.hint");
        assert(hint_key("doctor-project-config"@) =~= "doctor-project-config.hint"@);
    } else if i == 37 {
        reveal_strlit("doctor-sharding-redis");
        reveal_strlit("doctor-sharding-redis.hint");
        assert(hint_key("doctor-sharding-redis"@) =~= "doctor-sharding-redis.hint"@);
    } else if i == 38 {
        reveal_strlit("doctor-build-output");
        reveal_strlit("doctor-build-output.hint");
        assert(hint_key("doctor-build-output"@) =~= "doctor-build-output.hint"@);
    } else if i == 39 {
        reveal_strlit("doctor-i18n");
        reveal_strlit("doctor-i18n.hint");
        assert(hint_key("doctor-i18n"@) =~= "doctor-i18n.hint"@);
    }
}

} // verus!
